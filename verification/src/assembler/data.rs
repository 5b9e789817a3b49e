//! Fixed data of the code generator: the argument-register convention and the
//! comparison-subroutine block every program is prefixed with.
use vstd::prelude::*;

verus! {

use crate::util::tok_views;
use vstd::string::StringExecFns;

/// The register the argument at `index` is passed in.
pub open spec fn spec_argument_register(index: int) -> Seq<char> {
    if index == 0 {
        "rdi"@
    } else if index == 1 {
        "rsi"@
    } else if index == 2 {
        "rdx"@
    } else if index == 3 {
        "r10"@
    } else if index == 4 {
        "r8"@
    } else {
        "r9"@
    }
}

/// The register the argument at `index` is passed in; only six arguments can
/// be passed in registers.
pub fn argument_register(index: usize) -> (r: &'static str)
    requires
        index < 6,
    ensures
        r@ == spec_argument_register(index as int),
{
    if index == 0 {
        "rdi"
    } else if index == 1 {
        "rsi"
    } else if index == 2 {
        "rdx"
    } else if index == 3 {
        "r10"
    } else if index == 4 {
        "r8"
    } else {
        "r9"
    }
}

/// The comparison-subroutine block: six fixed routines, each taking two
/// values in `rdi` and `rsi` and leaving 1 or 0 in `rax`.
pub open spec fn spec_cmp_lines() -> Seq<Seq<char>> {
    seq![
        "cmp_eq:"@,
        "  cmp rdi, rsi"@,
        "  je .eq"@,
        "  jmp .neq"@,
        ".eq:"@,
        "  mov rax, 1"@,
        "  jmp .end"@,
        ".neq:"@,
        "  mov rax, 0"@,
        "  jmp .end"@,
        ".end:"@,
        "  ret"@,
        ""@,
        "cmp_neq:"@,
        "  cmp rdi, rsi"@,
        "  jne .eq"@,
        "  jmp .neq"@,
        ".eq:"@,
        "  mov rax, 1"@,
        "  jmp .end"@,
        ".neq:"@,
        "  mov rax, 0"@,
        "  jmp .end"@,
        ".end:"@,
        "  ret"@,
        "cmp_gt:"@,
        "  cmp rdi, rsi"@,
        "  jg .eq"@,
        "  jmp .neq"@,
        ".eq:"@,
        "  mov rax, 1"@,
        "  jmp .end"@,
        ".neq:"@,
        "  mov rax, 0"@,
        "  jmp .end"@,
        ".end:"@,
        "  ret"@,
        ""@,
        "cmp_geq:"@,
        "  cmp rdi, rsi"@,
        "  jge .eq"@,
        "  jmp .neq"@,
        ".eq:"@,
        "  mov rax, 1"@,
        "  jmp .end"@,
        ".neq:"@,
        "  mov rax, 0"@,
        "  jmp .end"@,
        ".end:"@,
        "  ret"@,
        ""@,
        "cmp_lt:"@,
        "  cmp rdi, rsi"@,
        "  jl .eq"@,
        "  jmp .neq"@,
        ".eq:"@,
        "  mov rax, 1"@,
        "  jmp .end"@,
        ".neq:"@,
        "  mov rax, 0"@,
        "  jmp .end"@,
        ".end:"@,
        "  ret"@,
        ""@,
        "cmp_leq:"@,
        "  cmp rdi, rsi"@,
        "  jle .eq"@,
        "  jmp .neq"@,
        ".eq:"@,
        "  mov rax, 1"@,
        "  jmp .end"@,
        ".neq:"@,
        "  mov rax, 0"@,
        "  jmp .end"@,
        ".end:"@,
        "  ret"@,
        ""@,
    ]
}

/// Gets the fixed utility routines every program is prefixed with: the
/// comparison-subroutine block, emitted once per program.
#[verifier::rlimit(100)]
pub fn get_all() -> (r: Vec<String>)
    ensures
        tok_views(r@) == spec_cmp_lines(),
{
    let mut result: Vec<String> = Vec::new();
    result.push(String::from_str("cmp_eq:"));
    result.push(String::from_str("  cmp rdi, rsi"));
    result.push(String::from_str("  je .eq"));
    result.push(String::from_str("  jmp .neq"));
    result.push(String::from_str(".eq:"));
    result.push(String::from_str("  mov rax, 1"));
    result.push(String::from_str("  jmp .end"));
    result.push(String::from_str(".neq:"));
    result.push(String::from_str("  mov rax, 0"));
    result.push(String::from_str("  jmp .end"));
    result.push(String::from_str(".end:"));
    result.push(String::from_str("  ret"));
    result.push(String::from_str(""));
    result.push(String::from_str("cmp_neq:"));
    result.push(String::from_str("  cmp rdi, rsi"));
    result.push(String::from_str("  jne .eq"));
    result.push(String::from_str("  jmp .neq"));
    result.push(String::from_str(".eq:"));
    result.push(String::from_str("  mov rax, 1"));
    result.push(String::from_str("  jmp .end"));
    result.push(String::from_str(".neq:"));
    result.push(String::from_str("  mov rax, 0"));
    result.push(String::from_str("  jmp .end"));
    result.push(String::from_str(".end:"));
    result.push(String::from_str("  ret"));
    result.push(String::from_str("cmp_gt:"));
    result.push(String::from_str("  cmp rdi, rsi"));
    result.push(String::from_str("  jg .eq"));
    result.push(String::from_str("  jmp .neq"));
    result.push(String::from_str(".eq:"));
    result.push(String::from_str("  mov rax, 1"));
    result.push(String::from_str("  jmp .end"));
    result.push(String::from_str(".neq:"));
    result.push(String::from_str("  mov rax, 0"));
    result.push(String::from_str("  jmp .end"));
    result.push(String::from_str(".end:"));
    result.push(String::from_str("  ret"));
    result.push(String::from_str(""));
    result.push(String::from_str("cmp_geq:"));
    result.push(String::from_str("  cmp rdi, rsi"));
    result.push(String::from_str("  jge .eq"));
    result.push(String::from_str("  jmp .neq"));
    result.push(String::from_str(".eq:"));
    result.push(String::from_str("  mov rax, 1"));
    result.push(String::from_str("  jmp .end"));
    result.push(String::from_str(".neq:"));
    result.push(String::from_str("  mov rax, 0"));
    result.push(String::from_str("  jmp .end"));
    result.push(String::from_str(".end:"));
    result.push(String::from_str("  ret"));
    result.push(String::from_str(""));
    result.push(String::from_str("cmp_lt:"));
    result.push(String::from_str("  cmp rdi, rsi"));
    result.push(String::from_str("  jl .eq"));
    result.push(String::from_str("  jmp .neq"));
    result.push(String::from_str(".eq:"));
    result.push(String::from_str("  mov rax, 1"));
    result.push(String::from_str("  jmp .end"));
    result.push(String::from_str(".neq:"));
    result.push(String::from_str("  mov rax, 0"));
    result.push(String::from_str("  jmp .end"));
    result.push(String::from_str(".end:"));
    result.push(String::from_str("  ret"));
    result.push(String::from_str(""));
    result.push(String::from_str("cmp_leq:"));
    result.push(String::from_str("  cmp rdi, rsi"));
    result.push(String::from_str("  jle .eq"));
    result.push(String::from_str("  jmp .neq"));
    result.push(String::from_str(".eq:"));
    result.push(String::from_str("  mov rax, 1"));
    result.push(String::from_str("  jmp .end"));
    result.push(String::from_str(".neq:"));
    result.push(String::from_str("  mov rax, 0"));
    result.push(String::from_str("  jmp .end"));
    result.push(String::from_str(".end:"));
    result.push(String::from_str("  ret"));
    result.push(String::from_str(""));
    proof {
        assert(tok_views(result@) =~= spec_cmp_lines());
    }
    result
}

} // verus!
