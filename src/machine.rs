//! A model of the x86-64 instructions that the code generator emits, precise
//! enough to run the generated functions without executing native code.
use vstd::prelude::*;

verus! {

/// The general-purpose registers that the emitted code reads or writes.
#[derive(Clone, Copy, Debug, PartialEq, Eq, Structural)]
pub struct Regs {
    pub rax: i64,
    pub rcx: i64,
    pub rdx: i64,
    pub r8: i64,
}

/// A decoded instruction.
#[derive(Clone, Copy, Debug, PartialEq, Eq, Structural)]
pub enum Insn {
    /// `xor %rcx, %rcx`
    ZeroRcx,
    /// `inc %rcx`
    IncRcx,
    /// `dec %rcx`
    DecRcx,
    /// `imul $imm8, %rcx`
    ImulRcx(i64),
    /// `mov %rcx, %rax`
    MovRaxRcx,
    /// `mov $imm32, %r8`
    MovR8(i64),
    /// `cqto`: sign-extend rax into rdx
    Cqo,
    /// `idivq %r8`: signed division of rdx:rax by r8
    IdivR8,
    /// `mov %rax, %rcx`
    MovRcxRax,
    /// `ret`
    Ret,
}

pub open spec fn pow64() -> int {
    0x1_0000_0000_0000_0000
}

pub open spec fn sext8(b: u8) -> int {
    if b < 128 { b as int } else { b - 256 }
}

pub open spec fn sext32(b0: u8, b1: u8, b2: u8, b3: u8) -> int {
    let u = b0 + 0x100 * b1 + 0x1_0000 * b2 + 0x100_0000 * b3;
    if b3 < 128 { u } else { u - 0x1_0000_0000 }
}

/// Whether `code` holds `n` bytes from `pc` on.
pub open spec fn has(code: Seq<u8>, pc: int, n: int) -> bool {
    0 <= pc && pc + n <= code.len()
}

/// The instruction at `pc` and its length in bytes, if it is one of the modelled ones.
pub open spec fn decode(code: Seq<u8>, pc: int) -> Option<(Insn, int)> {
    if has(code, pc, 1) && code[pc] == 0xc3 {
        Some((Insn::Ret, 1))
    } else if has(code, pc, 2) && code[pc] == 0x48 && code[pc + 1] == 0x99 {
        Some((Insn::Cqo, 2))
    } else if has(code, pc, 3) && code[pc] == 0x48 && code[pc + 1] == 0x31 && code[pc + 2] == 0xc9 {
        Some((Insn::ZeroRcx, 3))
    } else if has(code, pc, 3) && code[pc] == 0x48 && code[pc + 1] == 0xff && code[pc + 2] == 0xc1 {
        Some((Insn::IncRcx, 3))
    } else if has(code, pc, 3) && code[pc] == 0x48 && code[pc + 1] == 0xff && code[pc + 2] == 0xc9 {
        Some((Insn::DecRcx, 3))
    } else if has(code, pc, 3) && code[pc] == 0x48 && code[pc + 1] == 0x89 && code[pc + 2] == 0xc8 {
        Some((Insn::MovRaxRcx, 3))
    } else if has(code, pc, 3) && code[pc] == 0x48 && code[pc + 1] == 0x89 && code[pc + 2] == 0xc1 {
        Some((Insn::MovRcxRax, 3))
    } else if has(code, pc, 3) && code[pc] == 0x49 && code[pc + 1] == 0xf7 && code[pc + 2] == 0xf8 {
        Some((Insn::IdivR8, 3))
    } else if has(code, pc, 4) && code[pc] == 0x48 && code[pc + 1] == 0x6b && code[pc + 2] == 0xc9 {
        Some((Insn::ImulRcx(sext8(code[pc + 3]) as i64), 4))
    } else if has(code, pc, 7) && code[pc] == 0x49 && code[pc + 1] == 0xc7 && code[pc + 2] == 0xc0 {
        Some((Insn::MovR8(sext32(code[pc + 3], code[pc + 4], code[pc + 5], code[pc + 6]) as i64), 7))
    } else {
        None
    }
}

pub open spec fn abs(a: int) -> int {
    if a < 0 { -a } else { a }
}

/// Signed division truncating toward zero.
pub open spec fn tdiv(a: int, b: int) -> int {
    if (a < 0) == (b < 0) { abs(a) / abs(b) } else { -(abs(a) / abs(b)) }
}

/// The remainder of `tdiv`, with the sign of the dividend.
pub open spec fn trem(a: int, b: int) -> int {
    if a < 0 { -(abs(a) % abs(b)) } else { abs(a) % abs(b) }
}

/// rdx:rax read as one signed 128-bit number.
pub open spec fn wide_dividend(st: Regs) -> int {
    st.rdx * pow64() + (if st.rax < 0 { st.rax + pow64() } else { st.rax as int })
}

/// The registers after one instruction other than `ret`; `None` is a divide fault.
pub open spec fn exec_insn(st: Regs, insn: Insn) -> Option<Regs> {
    match insn {
        Insn::ZeroRcx => Some(Regs { rcx: 0, ..st }),
        Insn::IncRcx => Some(Regs { rcx: vstd::wrapping::i64_specs::wrapping_add(st.rcx, 1), ..st }),
        Insn::DecRcx => Some(Regs { rcx: vstd::wrapping::i64_specs::wrapping_sub(st.rcx, 1), ..st }),
        Insn::ImulRcx(k) => Some(Regs { rcx: vstd::wrapping::i64_specs::wrapping_mul(st.rcx, k), ..st }),
        Insn::MovRaxRcx => Some(Regs { rax: st.rcx, ..st }),
        Insn::MovR8(k) => Some(Regs { r8: k, ..st }),
        Insn::Cqo => Some(Regs { rdx: if st.rax < 0 { -1i64 } else { 0i64 }, ..st }),
        Insn::IdivR8 => {
            let d = wide_dividend(st);
            let q = tdiv(d, st.r8 as int);
            if st.r8 == 0 || q < i64::MIN || q > i64::MAX {
                None
            } else {
                Some(Regs { rax: q as i64, rdx: trem(d, st.r8 as int) as i64, ..st })
            }
        },
        Insn::MovRcxRax => Some(Regs { rcx: st.rax, ..st }),
        Insn::Ret => Some(st),
    }
}

/// The value that the code returns in rax when run from `pc` in state `st`;
/// `None` if it faults or reaches bytes outside the modelled instructions.
pub open spec fn run(code: Seq<u8>, pc: int, st: Regs) -> Option<i64>
    decreases code.len() - pc,
{
    match decode(code, pc) {
        None => None,
        Some((insn, n)) => {
            if insn is Ret {
                Some(st.rax)
            } else {
                match exec_insn(st, insn) {
                    None => None,
                    Some(next) => run(code, pc + n, next),
                }
            }
        },
    }
}

/// Decodes the instruction at `pc`, with its length in bytes.
pub fn decode_at(code: &Vec<u8>, pc: usize) -> (r: Option<(Insn, usize)>)
    ensures
        match r {
            None => decode(code@, pc as int) is None,
            Some((insn, n)) => decode(code@, pc as int) == Some((insn, n as int)) && 1 <= n
                && pc + n <= code@.len(),
        },
{
    let len = code.len();
    let left = if pc <= len { len - pc } else { 0 };
    if left >= 1 && code[pc] == 0xc3 {
        return Some((Insn::Ret, 1));
    }
    if left >= 2 && code[pc] == 0x48 && code[pc + 1] == 0x99 {
        return Some((Insn::Cqo, 2));
    }
    if left >= 3 {
        let (b0, b1, b2) = (code[pc], code[pc + 1], code[pc + 2]);
        if b0 == 0x48 && b1 == 0x31 && b2 == 0xc9 {
            return Some((Insn::ZeroRcx, 3));
        } else if b0 == 0x48 && b1 == 0xff && b2 == 0xc1 {
            return Some((Insn::IncRcx, 3));
        } else if b0 == 0x48 && b1 == 0xff && b2 == 0xc9 {
            return Some((Insn::DecRcx, 3));
        } else if b0 == 0x48 && b1 == 0x89 && b2 == 0xc8 {
            return Some((Insn::MovRaxRcx, 3));
        } else if b0 == 0x48 && b1 == 0x89 && b2 == 0xc1 {
            return Some((Insn::MovRcxRax, 3));
        } else if b0 == 0x49 && b1 == 0xf7 && b2 == 0xf8 {
            return Some((Insn::IdivR8, 3));
        } else if left >= 4 && b0 == 0x48 && b1 == 0x6b && b2 == 0xc9 {
            let b = code[pc + 3];
            let k: i64 = if b < 128 { b as i64 } else { b as i64 - 256 };
            return Some((Insn::ImulRcx(k), 4));
        } else if left >= 7 && b0 == 0x49 && b1 == 0xc7 && b2 == 0xc0 {
            let u: i64 = code[pc + 3] as i64 + 0x100 * (code[pc + 4] as i64) + 0x1_0000 * (
            code[pc + 5] as i64) + 0x100_0000 * (code[pc + 6] as i64);
            let k: i64 = if code[pc + 6] < 128 { u } else { u - 0x1_0000_0000 };
            return Some((Insn::MovR8(k), 7));
        }
    }
    None
}

/// `idivq %r8`: `None` when the divisor is zero or the quotient does not fit.
fn idiv(st: Regs) -> (r: Option<Regs>)
    ensures
        r == exec_insn(st, Insn::IdivR8),
{
    if st.r8 == 0 {
        return None;
    }
    let low: i128 = if st.rax < 0 { st.rax as i128 + 0x1_0000_0000_0000_0000i128 } else { st.rax as i128 };
    let d: i128 = (st.rdx as i128) * 0x1_0000_0000_0000_0000i128 + low;
    assert(d == wide_dividend(st));
    let ua: u128 = if d < 0 { (-(d + 1)) as u128 + 1 } else { d as u128 };
    let ub: u128 = if st.r8 < 0 { (-(st.r8 as i128)) as u128 } else { st.r8 as u128 };
    assert(ua as int == abs(d as int) && ub as int == abs(st.r8 as int));
    let uq: u128 = ua / ub;
    let ur: u128 = ua % ub;
    proof {
        vstd::arithmetic::div_mod::lemma_mod_pos_bound(ua as int, ub as int);
        vstd::arithmetic::div_mod::lemma_div_pos_is_pos(ua as int, ub as int);
    }
    let rem: i64 = if d < 0 { -(ur as i64) } else { ur as i64 };
    if (d < 0) == (st.r8 < 0) {
        if uq > 0x7fff_ffff_ffff_ffff {
            None
        } else {
            Some(Regs { rax: uq as i64, rdx: rem, ..st })
        }
    } else {
        if uq > 0x8000_0000_0000_0000 {
            None
        } else {
            let q: i64 = (-(uq as i128)) as i64;
            Some(Regs { rax: q, rdx: rem, ..st })
        }
    }
}

/// Executes one instruction other than `ret`; `None` is a divide fault.
pub fn exec_step(st: Regs, insn: Insn) -> (r: Option<Regs>)
    ensures
        r == exec_insn(st, insn),
{
    match insn {
        Insn::ZeroRcx => Some(Regs { rcx: 0, ..st }),
        Insn::IncRcx => Some(Regs { rcx: st.rcx.wrapping_add(1), ..st }),
        Insn::DecRcx => Some(Regs { rcx: st.rcx.wrapping_sub(1), ..st }),
        Insn::ImulRcx(k) => Some(Regs { rcx: st.rcx.wrapping_mul(k), ..st }),
        Insn::MovRaxRcx => Some(Regs { rax: st.rcx, ..st }),
        Insn::MovR8(k) => Some(Regs { r8: k, ..st }),
        Insn::Cqo => Some(Regs { rdx: if st.rax < 0 { -1 } else { 0 }, ..st }),
        Insn::IdivR8 => idiv(st),
        Insn::MovRcxRax => Some(Regs { rcx: st.rax, ..st }),
        Insn::Ret => Some(st),
    }
}

/// Runs machine code on the model from register state `start`, returning what
/// it leaves in rax at `ret`, or `None` if it faults or leaves the modelled
/// instructions.
pub fn emulate(code: &Vec<u8>, start: Regs) -> (r: Option<i64>)
    ensures
        r == run(code@, 0, start),
{
    let mut pc: usize = 0;
    let mut st = start;
    let len = code.len();
    loop
        invariant
            len == code@.len(),
            pc <= len,
            run(code@, pc as int, st) == run(code@, 0, start),
        decreases code@.len() - pc,
    {
        match decode_at(code, pc) {
            None => {
                return None;
            },
            Some((insn, n)) => {
                if matches!(insn, Insn::Ret) {
                    return Some(st.rax);
                }
                match exec_step(st, insn) {
                    None => {
                        return None;
                    },
                    Some(next) => {
                        st = next;
                        pc = pc + n;
                    },
                }
            },
        }
    }
}

} // verus!
