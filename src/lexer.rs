use vstd::prelude::*;
use vstd::string::*;
use crate::opcode::{Op, JitError};

verus! {

/// The opcode that a character stands for, if any.
pub open spec fn op_of(c: char) -> Option<Op> {
    if c == '+' {
        Some(Op::Increment)
    } else if c == '-' {
        Some(Op::Decrement)
    } else if c == '*' {
        Some(Op::Double)
    } else if c == '/' {
        Some(Op::Halve)
    } else {
        None
    }
}

/// Blanks separate opcodes and carry no meaning.
pub open spec fn is_blank(c: char) -> bool {
    c == ' ' || c == '\n'
}

pub open spec fn is_accepted(c: char) -> bool {
    is_blank(c) || op_of(c) is Some
}

pub open spec fn all_accepted(s: Seq<char>) -> bool {
    forall|i: int| 0 <= i < s.len() ==> is_accepted(#[trigger] s[i])
}

/// `s[k]` is the first character of `s` that is not accepted.
pub open spec fn first_rejected_at(s: Seq<char>, k: int) -> bool {
    &&& 0 <= k < s.len()
    &&& !is_accepted(s[k])
    &&& all_accepted(s.take(k))
}

/// The opcodes of `s`, in order, with every other character skipped.
pub open spec fn ops_of(s: Seq<char>) -> Seq<Op>
    decreases s.len(),
{
    if s.len() == 0 {
        seq![]
    } else {
        match op_of(s.last()) {
            Some(o) => ops_of(s.drop_last()).push(o),
            None => ops_of(s.drop_last()),
        }
    }
}

/// A program compiles when every character is accepted and at least one is an opcode.
pub open spec fn is_program(s: Seq<char>) -> bool {
    all_accepted(s) && ops_of(s).len() > 0
}

/// The outcome of tokenizing `s`: its opcodes, or the input error it holds.
pub open spec fn tokenize_spec(s: Seq<char>, r: Result<Seq<Op>, JitError>) -> bool {
    match r {
        Ok(v) => is_program(s) && v == ops_of(s),
        Err(JitError::UnknownChar(c)) => exists|k: int| first_rejected_at(s, k) && s[k] == c,
        Err(JitError::EmptyProgram) => all_accepted(s) && ops_of(s).len() == 0,
        Err(JitError::AllocationFailed) => false,
    }
}

pub fn char_op(c: char) -> (r: Option<Op>)
    ensures
        r == op_of(c),
{
    if c == '+' {
        Some(Op::Increment)
    } else if c == '-' {
        Some(Op::Decrement)
    } else if c == '*' {
        Some(Op::Double)
    } else if c == '/' {
        Some(Op::Halve)
    } else {
        None
    }
}

/// Turns a program into its opcodes, rejecting unknown characters and empty programs.
pub fn tokenize(program: &str) -> (r: Result<Vec<Op>, JitError>)
    ensures
        r is Ok <==> is_program(program@),
        tokenize_spec(program@, match r { Ok(v) => Ok(v@), Err(e) => Err(e) }),
{
    let n = program.unicode_len();
    let mut tokens: Vec<Op> = Vec::new();
    let mut i: usize = 0;
    while i < n
        invariant
            n == program@.len(),
            i <= n,
            all_accepted(program@.take(i as int)),
            tokens@ == ops_of(program@.take(i as int)),
        decreases n - i,
    {
        let c = program.get_char(i);
        let s = Ghost(program@);
        assert(s@.take(i as int + 1).drop_last() =~= s@.take(i as int));
        assert(s@.take(i as int + 1).last() == c);
        match char_op(c) {
            Some(o) => {
                tokens.push(o);
            },
            None => {
                if c != ' ' && c != '\n' {
                    assert(first_rejected_at(s@, i as int));
                    return Err(JitError::UnknownChar(c));
                }
            },
        }
        assert(all_accepted(s@.take(i as int + 1))) by {
            assert forall|j: int| 0 <= j < i + 1 implies is_accepted(#[trigger] s@.take(i as int + 1)[j]) by {
                if j < i {
                    assert(s@.take(i as int + 1)[j] == s@.take(i as int)[j]);
                }
            }
        }
        i = i + 1;
    }
    assert(program@.take(n as int) =~= program@);
    if tokens.len() == 0 {
        Err(JitError::EmptyProgram)
    } else {
        Ok(tokens)
    }
}

} // verus!
