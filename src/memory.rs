//! Executable memory for compiled code, obtained through the `region` crate.
use vstd::prelude::*;
use crate::opcode::JitError;
use crate::lexer::{is_program, ops_of, tokenize_spec};
use crate::codegen::{jit, code_of};

verus! {

#[verifier::external_type_specification]
#[verifier::external_body]
pub struct ExAllocation(region::Allocation);

#[verifier::external_type_specification]
#[verifier::external_body]
pub struct ExRegionError(region::Error);

/// Relies on `region::alloc`: it maps whole pages readable, writable and
/// executable, and refuses a size of zero.
#[verifier::external_body]
fn alloc_executable(size: usize) -> (r: Result<region::Allocation, region::Error>)
    ensures
        size == 0 ==> r is Err,
{
    region::alloc(size, region::Protection::READ_WRITE_EXECUTE)
}

/// Compiles `program` and reserves executable memory for its code. A rejected
/// program is reported before any memory is asked for.
pub fn prepare(program: &str) -> (r: Result<(Vec<u8>, region::Allocation), JitError>)
    ensures
        r matches Ok((code, _)) ==> is_program(program@) && code@ == code_of(ops_of(program@)),
        r matches Err(e) ==> (e == JitError::AllocationFailed <==> is_program(program@)),
        r matches Err(e) ==> (e != JitError::AllocationFailed ==> tokenize_spec(program@, Err(e))),
{
    match jit(program) {
        Err(e) => Err(e),
        Ok(code) => match alloc_executable(code.len()) {
            Ok(memory) => Ok((code, memory)),
            Err(_) => Err(JitError::AllocationFailed),
        },
    }
}

} // verus!
