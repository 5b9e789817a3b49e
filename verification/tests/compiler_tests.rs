//! End-to-end tests of the compiler: token separation, statement parsing and
//! code generation on small source programs.
use coding_language::assembler::Assembler;
use coding_language::assembler::error::AssemblerError;
use coding_language::optimizer::Optimizer;
use coding_language::tokenizer::Token;
use coding_language::tokenizer::Tokenizer;
use coding_language::tokenizer::declaration::DataType;
use coding_language::tokenizer::enumerators::Assignment;
use coding_language::tokenizer::enumerators::MathOperator;
use coding_language::tokenizer::error::TokenizerError;

#[test]
fn test() {
    let my_vec = vec!["int", "x", ",", "int", "y"];
    println!("{:?}", my_vec.split(|x| *x == ",").collect::<Vec<&[&str]>>());
}

fn tokens_of(source: &str) -> Vec<String> {
    let mut optimizer = Optimizer::init();
    optimizer.generate_optimized_content(source);
    optimizer.content
}

fn parse(source: &str) -> Result<Vec<Token>, TokenizerError> {
    let toks = tokens_of(source);
    let mut tokenizer = Tokenizer::init();
    tokenizer.create_token_tree(&toks)?;
    Ok(tokenizer.token_tree)
}

fn compile(source: &str) -> Result<Vec<String>, String> {
    let toks = tokens_of(source);
    let mut tokenizer = Tokenizer::init();
    match tokenizer.create_token_tree(&toks) {
        Ok(()) => {}
        Err(e) => return Err(format!("{:?}", e)),
    }
    let mut assembler = Assembler::init();
    match assembler.generate_instructions(&tokenizer.token_tree) {
        Ok(()) => Ok(assembler.instructions),
        Err(e) => Err(format!("{:?}", e)),
    }
}

#[test]
fn separates_symbols_with_spaces() {
    let toks = tokens_of("decl x :-[int] = 3+4\n ");
    assert_eq!(
        toks,
        vec!["decl", "x", ":-[", "int", "]", "=", "3", "+", "4", "\n"]
    );
}

#[test]
fn longest_symbol_wins() {
    // `::[` must stay one token instead of splitting into `:` and `:` and `[`,
    // and `==` must not split into two `=`.
    let toks = tokens_of("a::[b==c");
    assert_eq!(toks, vec!["a", "::[", "b", "==", "c"]);
}

#[test]
fn declaration_inside_main() {
    // One declaration with a summed initializer lands in slot 0.
    let tree = parse("subroutine main ::[] -> int :\ndecl x :-[int] = 3 + 4\n;").unwrap();
    assert_eq!(tree.len(), 1);
    match &tree[0] {
        Token::Function(f) => {
            assert_eq!(f.name, "main");
            assert_eq!(f.return_type, DataType::INTEGER);
            assert_eq!(f.arguments.len(), 0);
            match &f.functionaliy[0] {
                Token::Declaration(d) => {
                    assert_eq!(d.name, "x");
                    assert_eq!(d.location, 0);
                    assert_eq!(d.data_type, DataType::INTEGER);
                    assert_eq!(
                        d.value,
                        Assignment::EVAL(
                            Box::new(Assignment::INTEGER(3)),
                            MathOperator::ADD,
                            Box::new(Assignment::INTEGER(4)),
                        )
                    );
                }
                other => panic!("expected a declaration, got {:?}", other),
            }
        }
        other => panic!("expected a function, got {:?}", other),
    }
}

#[test]
fn declaration_stores_to_first_slot() {
    let lines = compile("subroutine main ::[] -> int :\ndecl x :-[int] = 3 + 4\n;").unwrap();
    assert!(lines.contains(&"  mov QWORD [rbp-8], rax".to_string()));
    assert!(lines.contains(&"  add rax, rdi".to_string()));
}

#[test]
fn mixed_operands_resolve_to_float() {
    let lines = compile("subroutine main ::[] -> int :\ndecl y :-[flt] = 1.5 * 2\n;").unwrap();
    assert!(lines.contains(&"  mulsd xmm0, xmm1".to_string()));
    assert!(lines.contains(&"  mov rax, __float64__(1.5)".to_string()));
}

#[test]
fn call_marshals_arguments_in_order() {
    let source = "subroutine add ::[ int a , int b ] -> int :\nexpose a + b\n;\nsubroutine main ::[] -> int :\ndecl r :-[int] = add ::[ 3 , 4 ]\n;";
    let lines = compile(source).unwrap();
    let rdi = lines.iter().position(|l| l == "  mov rdi, 3").unwrap();
    let rsi = lines.iter().position(|l| l == "  mov rsi, 4").unwrap();
    let call = lines.iter().position(|l| l == "  call add").unwrap();
    assert!(rdi < rsi && rsi < call);
}

#[test]
fn three_way_conditional_shares_one_end_label() {
    let source = "subroutine main ::[] -> int :\ndecl x :-[int] = 1\ncmpr :&[ x ] : [ x == 1 ] :\nchng x = 10\n; [ x == 2 ] :\nchng x = 20\n; [ else ] :\nchng x = 30\n; ;\nexpose x\n;";
    let lines = compile(source).unwrap();
    assert!(lines.contains(&".cmp0_br0:".to_string()));
    assert!(lines.contains(&".cmp0_br1:".to_string()));
    assert!(lines.contains(&".cmp0_br2:".to_string()));
    let end_labels = lines.iter().filter(|l| *l == ".cmp0_end:").count();
    assert_eq!(end_labels, 1);
    // The untagged branch contributes exactly one unconditional jump in the
    // header slot.
    let else_jumps = lines.iter().filter(|l| *l == "  jmp .cmp0_br2").count();
    assert_eq!(else_jumps, 1);
    assert!(lines.contains(&"  je .cmp0_br0".to_string()));
}

#[test]
fn undeclared_variable_is_rejected_without_output() {
    let toks = tokens_of("subroutine main ::[] -> int :\ndecl x :-[int] = y + 1\n;");
    let mut tokenizer = Tokenizer::init();
    let r = tokenizer.create_token_tree(&toks);
    assert_eq!(r, Err(TokenizerError::CouldNotParseTerm));
    assert!(tokenizer.token_tree.is_empty());
}

#[test]
fn compiling_twice_yields_identical_output() {
    let source = "subroutine main ::[] -> int :\ndecl x :-[int] = 3 + 4\nexpose x\n;";
    let first = compile(source).unwrap();
    let second = compile(source).unwrap();
    assert_eq!(first, second);
}

#[test]
fn integer_division_is_rejected() {
    let toks = tokens_of("subroutine main ::[] -> int :\ndecl x :-[int] = 4 / 2\n;");
    let mut tokenizer = Tokenizer::init();
    tokenizer.create_token_tree(&toks).unwrap();
    let mut assembler = Assembler::init();
    let r = assembler.generate_instructions(&tokenizer.token_tree);
    assert_eq!(r, Err(AssemblerError::CouldNotParseEvaluation));
    assert!(assembler.instructions.is_empty());
}

#[test]
fn float_division_is_lowered() {
    let lines = compile("subroutine main ::[] -> int :\ndecl x :-[flt] = 1.0 / 2\n;").unwrap();
    assert!(lines.contains(&"  divsd xmm0, xmm1".to_string()));
}

#[test]
fn condition_must_be_a_comparison() {
    let source =
        "subroutine main ::[] -> int :\ndecl x :-[int] = 1\ncmpr :&[ x ] : [ x ] :\nchng x = 2\n; ;\n;";
    let toks = tokens_of(source);
    let mut tokenizer = Tokenizer::init();
    tokenizer.create_token_tree(&toks).unwrap();
    let mut assembler = Assembler::init();
    let r = assembler.generate_instructions(&tokenizer.token_tree);
    assert_eq!(r, Err(AssemblerError::AssignmentInComparisonNotComparison));
}

#[test]
fn call_arguments_must_be_literals() {
    let source = "subroutine add ::[ int a , int b ] -> int :\nexpose a + b\n;\nsubroutine main ::[] -> int :\ndecl x :-[int] = 1\ndecl r :-[int] = add ::[ x , 4 ]\n;";
    let toks = tokens_of(source);
    let mut tokenizer = Tokenizer::init();
    tokenizer.create_token_tree(&toks).unwrap();
    let mut assembler = Assembler::init();
    let r = assembler.generate_instructions(&tokenizer.token_tree);
    assert_eq!(
        r,
        Err(AssemblerError::IncorrectAssignmentAttemptedToConvert)
    );
}

#[test]
fn seven_parameters_are_rejected() {
    let source = "subroutine wide ::[ int a , int b , int c , int d , int e , int f , int g ] -> int :\nexpose a\n;";
    let toks = tokens_of(source);
    let mut tokenizer = Tokenizer::init();
    tokenizer.create_token_tree(&toks).unwrap();
    let mut assembler = Assembler::init();
    let r = assembler.generate_instructions(&tokenizer.token_tree);
    assert_eq!(r, Err(AssemblerError::TooManyFunctionArguments));
}

#[test]
fn entry_point_and_comparison_block_come_first() {
    let lines = compile("subroutine main ::[] -> int :\nexpose 0\n;").unwrap();
    assert_eq!(lines[0], "global _start");
    assert_eq!(lines[1], "_start:");
    assert_eq!(lines[2], "  call main");
    assert_eq!(lines[8], "cmp_eq:");
    assert!(lines.contains(&"main:".to_string()));
    assert!(lines.contains(&"  push rbp".to_string()));
    assert!(lines.contains(&"  ret".to_string()));
}

#[test]
fn parameters_spill_into_slots() {
    let source = "subroutine add ::[ int a , int b ] -> int :\nexpose a + b\n;";
    let lines = compile(source).unwrap();
    assert!(lines.contains(&"  mov QWORD [rbp-8], rdi".to_string()));
    assert!(lines.contains(&"  mov QWORD [rbp-16], rsi".to_string()));
    assert!(lines.contains(&"  push rdi".to_string()));
    // Saved registers are restored in reverse order before the return.
    let pop_rsi = lines.iter().position(|l| l == "  pop rsi").unwrap();
    let pop_rdi = lines.iter().position(|l| l == "  pop rdi").unwrap();
    assert!(pop_rsi < pop_rdi);
}

#[test]
fn return_moves_value_to_accumulator() {
    let lines = compile("subroutine main ::[] -> int :\nexpose 7\n;").unwrap();
    let mv = lines.iter().position(|l| l == "  mov rdi, 7").unwrap();
    let acc = lines[mv..].iter().position(|l| l == "  mov rax, rdi").unwrap();
    assert!(acc > 0);
}

#[test]
fn reassignment_stores_to_existing_slot() {
    let source = "subroutine main ::[] -> int :\ndecl x :-[int] = 1\nchng x = 5\n;";
    let lines = compile(source).unwrap();
    let stores = lines
        .iter()
        .filter(|l| *l == "  mov QWORD [rbp-8], rax")
        .count();
    assert_eq!(stores, 2);
}

#[test]
fn conditional_labels_stay_unique_across_functions() {
    // The conditional index is a single program-wide counter, so two
    // identically shaped conditionals in different functions never share
    // labels.
    let source = "subroutine f ::[ int a ] -> int :\ncmpr :&[ a ] : [ a == 1 ] :\nchng a = 2\n; ;\nexpose a\n;\nsubroutine g ::[ int b ] -> int :\ncmpr :&[ b ] : [ b == 1 ] :\nchng b = 3\n; ;\nexpose b\n;";
    let lines = compile(source).unwrap();
    assert!(lines.contains(&".cmp0_br0:".to_string()));
    assert!(lines.contains(&".cmp1_br0:".to_string()));
    assert!(lines.contains(&".cmp0_end:".to_string()));
    assert!(lines.contains(&".cmp1_end:".to_string()));
}

#[test]
fn call_before_definition_does_not_resolve() {
    // A function is registered only after its body finishes parsing, so a
    // call that lexically precedes its target's definition fails.
    let source = "subroutine main ::[] -> int :\ndecl r :-[int] = late ::[ 1 ]\n;\nsubroutine late ::[ int a ] -> int :\nexpose a\n;";
    let toks = tokens_of(source);
    let mut tokenizer = Tokenizer::init();
    assert_eq!(
        tokenizer.create_token_tree(&toks),
        Err(TokenizerError::CouldNotParseTerm)
    );
}

#[test]
fn capture_list_resolves_several_variables() {
    let source = "subroutine main ::[] -> int :\ndecl x :-[int] = 1\ndecl y :-[int] = 2\ncmpr :&[ x , y ] : [ x < y ] :\nchng x = 9\n; ;\nexpose x\n;";
    let tree = parse(source).unwrap();
    match &tree[0] {
        Token::Function(f) => match &f.functionaliy[2] {
            Token::ConditionalStatement(cs) => {
                assert_eq!(cs.active_variables, vec![0, 1]);
                assert_eq!(cs.index, 0);
                assert_eq!(cs.condition_fields.len(), 1);
            }
            other => panic!("expected a conditional statement, got {:?}", other),
        },
        other => panic!("expected a function, got {:?}", other),
    }
    let lines = compile(source).unwrap();
    assert!(lines.contains(&"  jl .cmp0_br0".to_string()));
}
