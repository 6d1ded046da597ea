use calcjit::codegen::{compile, jit};
use calcjit::lexer::tokenize;
use calcjit::machine::{decode_at, emulate, Insn, Regs};
use calcjit::memory::prepare;
use calcjit::opcode::{apply, evaluate, JitError, Op};

const ZERO: Regs = Regs { rax: 0, rcx: 0, rdx: 0, r8: 0 };

fn t(p: &str) -> i64 {
    emulate(&jit(p).unwrap(), ZERO).unwrap()
}

#[test]
fn test_execution() {
    assert_eq!(t("+"), 1);
    assert_eq!(t("++"), 2);
    assert_eq!(t("++/"), 1);
    assert_eq!(t("-"), -1);
    assert_eq!(t("--*"), -4);
    assert_eq!(t("*"), 0);
    assert_eq!(t("/"), 0);
    assert_eq!(t("++*******"), 256);
    assert_eq!(t("--**++"), -6);
}

#[test]
fn documented_examples() {
    assert_eq!(t("++*"), 4);
    assert_eq!(t("++*-/"), 1);
    assert_eq!(t("+ + * - /"), 1);
}

#[test]
fn compiled_code_matches_interpretation() {
    let programs = ["+", "-/", "---/", "++*-/", "--**++", "+*+*+*/-/-/", "-------/*/"];
    let starts = [
        ZERO,
        Regs { rax: 17, rcx: -9, rdx: 3, r8: 0 },
        Regs { rax: i64::MIN, rcx: i64::MAX, rdx: -1, r8: -5 },
    ];
    for p in programs {
        let expected = evaluate(&tokenize(p).unwrap());
        for st in starts {
            assert_eq!(emulate(&jit(p).unwrap(), st), Some(expected));
        }
    }
}

#[test]
fn compiling_twice_gives_the_same_result() {
    let a = jit("++*--/").unwrap();
    let b = jit("++*--/").unwrap();
    assert_eq!(a, b);
    assert_eq!(emulate(&a, ZERO), emulate(&b, ZERO));
    assert_eq!(emulate(&a, ZERO), Some(1));
}

#[test]
fn blanks_do_not_matter() {
    let plain = jit("++*-/").unwrap();
    assert_eq!(jit("+ + * - /").unwrap(), plain);
    assert_eq!(jit("\n++\n*  -/\n").unwrap(), plain);
}

#[test]
fn halving_zero_is_zero() {
    assert_eq!(t("/"), 0);
    assert_eq!(t("//"), 0);
}

#[test]
fn doubling_is_a_power_of_two() {
    assert_eq!(t("++*******"), 256);
    assert_eq!(t("+**********"), 1024);
}

#[test]
fn negatives_use_signed_arithmetic() {
    assert_eq!(t("--*"), -4);
    assert_eq!(t("-***"), -8);
}

#[test]
fn halving_truncates_toward_zero() {
    assert_eq!(t("---/"), -1);
    assert_eq!(t("-/"), 0);
    assert_eq!(t("-----/"), -2);
    assert_eq!(apply(-3, Op::Halve), -1);
    assert_eq!(apply(i64::MIN, Op::Halve), i64::MIN / 2);
    assert_eq!(apply(i64::MIN + 1, Op::Halve), (i64::MIN + 1) / 2);
    assert_eq!(apply(7, Op::Halve), 3);
}

#[test]
fn arithmetic_wraps_at_sixty_four_bits() {
    let to_min = format!("+{}", "*".repeat(63));
    assert_eq!(t(&to_min), i64::MIN);
    assert_eq!(t(&format!("{to_min}*")), 0);
    assert_eq!(t(&format!("{to_min}-")), i64::MAX);
    assert_eq!(t(&format!("{to_min}/")), i64::MIN / 2);
    assert_eq!(apply(i64::MAX, Op::Increment), i64::MIN);
    assert_eq!(apply(i64::MIN, Op::Decrement), i64::MAX);
}

#[test]
fn unknown_character_is_rejected() {
    assert_eq!(jit("+a"), Err(JitError::UnknownChar('a')));
    assert_eq!(jit("+\t+"), Err(JitError::UnknownChar('\t')));
    assert_eq!(jit("x+y"), Err(JitError::UnknownChar('x')));
    assert_eq!(tokenize("++%"), Err(JitError::UnknownChar('%')));
    assert_eq!(prepare("++ 7").err(), Some(JitError::UnknownChar('7')));
}

#[test]
fn empty_program_is_rejected() {
    assert_eq!(jit(""), Err(JitError::EmptyProgram));
    assert_eq!(jit("  \n "), Err(JitError::EmptyProgram));
    assert_eq!(prepare("\n").err(), Some(JitError::EmptyProgram));
}

#[test]
fn tokens_in_order() {
    assert_eq!(
        tokenize(" +-\n*/ ").unwrap(),
        vec![Op::Increment, Op::Decrement, Op::Double, Op::Halve]
    );
}

#[test]
fn emitted_bytes() {
    assert_eq!(compile(&vec![]), vec![0x48, 0x31, 0xc9, 0x48, 0x89, 0xc8, 0xc3]);
    assert_eq!(
        jit("+*").unwrap(),
        vec![0x48, 0x31, 0xc9, 0x48, 0xff, 0xc1, 0x48, 0x6b, 0xc9, 0x02, 0x48, 0x89, 0xc8, 0xc3]
    );
    assert_eq!(jit("/").unwrap().len(), 3 + 18 + 4);
    assert_eq!(emulate(&compile(&vec![]), ZERO), Some(0));
}

#[test]
fn decoder_reads_immediates() {
    let code = vec![0x49, 0xc7, 0xc0, 0xfe, 0xff, 0xff, 0xff, 0x48, 0x6b, 0xc9, 0xfd];
    assert_eq!(decode_at(&code, 0), Some((Insn::MovR8(-2), 7)));
    assert_eq!(decode_at(&code, 7), Some((Insn::ImulRcx(-3), 4)));
    assert_eq!(decode_at(&code, 11), None);
    assert_eq!(decode_at(&code, 9), None);
}

#[test]
fn emulator_faults() {
    // idivq %r8 with r8 zero
    assert_eq!(emulate(&vec![0x49, 0xf7, 0xf8, 0xc3], ZERO), None);
    // rdx:rax / r8 overflows
    let st = Regs { rax: 0, rcx: 0, rdx: 1, r8: 1 };
    assert_eq!(emulate(&vec![0x49, 0xf7, 0xf8, 0xc3], st), None);
    // i64::MIN / -1
    let st = Regs { rax: i64::MIN, rcx: 0, rdx: -1, r8: -1 };
    assert_eq!(emulate(&vec![0x49, 0xf7, 0xf8, 0xc3], st), None);
    // unknown bytes, and running off the end
    assert_eq!(emulate(&vec![0x90, 0xc3], ZERO), None);
    assert_eq!(emulate(&vec![0x48, 0xff, 0xc1], ZERO), None);
}

#[test]
fn emulator_divides_wide_dividend() {
    // rdx:rax = 2^64 + 6, divided by 4
    let st = Regs { rax: 6, rcx: 0, rdx: 1, r8: 4 };
    let code = vec![0x48, 0x89, 0xc1, 0x49, 0xf7, 0xf8, 0xc3];
    assert_eq!(emulate(&code, st), Some(((1i128 << 64) + 6) as i64 / 4 + (1i64 << 62)));
    // -7 / 2 in rdx:rax form keeps truncation toward zero
    let st = Regs { rax: -7, rcx: 0, rdx: -1, r8: 2 };
    assert_eq!(emulate(&vec![0x49, 0xf7, 0xf8, 0xc3], st), Some(-3));
}

#[test]
fn evaluate_interprets_directly() {
    assert_eq!(evaluate(&vec![Op::Decrement, Op::Double]), -2);
    assert_eq!(evaluate(&vec![]), 0);
    assert_eq!(evaluate(&tokenize("--**++").unwrap()), -6);
}

#[test]
fn prepare_reserves_memory_for_the_code() {
    match prepare("++*") {
        Ok((code, memory)) => {
            assert_eq!(code, jit("++*").unwrap());
            assert!(memory.len() >= code.len());
        }
        Err(e) => assert_eq!(e, JitError::AllocationFailed),
    }
}
