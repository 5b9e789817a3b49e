//! Tests of the parser's rejection behavior, the scope tables and the small
//! verified helpers.
use coding_language::data::SyntaxElements;
use coding_language::optimizer::Optimizer;
use coding_language::optimizer::sort_by_size;
use coding_language::tokenizer::Tokenizer;
use coding_language::tokenizer::declaration::DataType;
use coding_language::tokenizer::enumerators::Assignment;
use coding_language::tokenizer::enumerators::ComparisonOperator;
use coding_language::tokenizer::enumerators::MathOperator;
use coding_language::tokenizer::error::TokenizerError;
use coding_language::tokenizer::structures::Variable;
use coding_language::tokenizer::structures::VariableHistory;
use coding_language::util::i64_to_string;
use coding_language::util::is_float_text;
use coding_language::util::parse_i64;
use coding_language::util::u128_to_string;
use coding_language::assembler::types_translator::AssignmentToAssembly;

fn parse_result(source: &str) -> Result<(), TokenizerError> {
    let mut optimizer = Optimizer::init();
    optimizer.generate_optimized_content(source);
    let mut tokenizer = Tokenizer::init();
    tokenizer.create_token_tree(&optimizer.content)
}

#[test]
fn else_branch_anywhere_but_last_is_rejected() {
    let source = "subroutine main ::[] -> int :\ndecl x :-[int] = 1\ncmpr :&[ x ] : [ else ] :\nchng x = 2\n; [ x == 1 ] :\nchng x = 3\n; ;\n;";
    assert_eq!(parse_result(source), Err(TokenizerError::ElseBranchNotLast));
}

#[test]
fn uncaptured_condition_variable_is_rejected() {
    let source = "subroutine main ::[] -> int :\ndecl x :-[int] = 1\ndecl y :-[int] = 2\ncmpr :&[ x ] : [ y == 1 ] :\nchng x = 2\n; ;\n;";
    assert_eq!(
        parse_result(source),
        Err(TokenizerError::VarNotUsedInComparison)
    );
}

#[test]
fn statement_outside_function_is_rejected() {
    assert_eq!(
        parse_result("decl x :-[int] = 5\n"),
        Err(TokenizerError::StatementOutsideFunction)
    );
}

#[test]
fn unterminated_block_is_rejected() {
    assert_eq!(
        parse_result("subroutine main ::[] -> int :\nexpose 0\n"),
        Err(TokenizerError::CouldNotFindEndOfBlock)
    );
}

#[test]
fn missing_set_type_group_is_rejected() {
    assert_eq!(
        parse_result("subroutine main ::[] -> int :\ndecl x = 5\n;"),
        Err(TokenizerError::MissingDelimiter)
    );
}

#[test]
fn unknown_declared_type_is_rejected() {
    assert_eq!(
        parse_result("subroutine main ::[] -> int :\ndecl x :-[ str ] = 5\n;"),
        Err(TokenizerError::UnknownDataType)
    );
}

#[test]
fn reassignment_of_undeclared_variable_is_rejected() {
    assert_eq!(
        parse_result("subroutine main ::[] -> int :\nchng y = 1\n;"),
        Err(TokenizerError::VariableNotFound)
    );
}

#[test]
fn capture_of_undeclared_variable_is_rejected() {
    let source =
        "subroutine main ::[] -> int :\ncmpr :&[ q ] : [ else ] :\nexpose 0\n; ;\n;";
    assert_eq!(parse_result(source), Err(TokenizerError::VariableNotFound));
}

#[test]
fn slot_indices_stay_stable_across_declarations() {
    let mut scope = VariableHistory::init(8);
    scope
        .add_variable(Variable::new("x", DataType::INTEGER))
        .unwrap();
    let x_slot = scope.find_variable("x").unwrap();
    scope
        .add_variable(Variable::new("y", DataType::FLOAT))
        .unwrap();
    scope
        .add_variable(Variable::new("z", DataType::INTEGER))
        .unwrap();
    assert_eq!(scope.find_variable("x").unwrap(), x_slot);
    assert_eq!(x_slot, 0);
    assert_eq!(scope.find_variable("y"), Some(1));
    assert_eq!(scope.find_variable("z"), Some(2));
    assert_eq!(scope.find_variable("w"), None);
    // The table always keeps exactly one trailing empty slot.
    assert_eq!(scope.data.len(), 4);
    assert!(scope.data[3].is_none());
}

#[test]
fn full_table_without_marker_is_reported() {
    let mut broken = VariableHistory {
        data: vec![Some(Variable::new("x", DataType::INTEGER))],
        step: 8,
    };
    assert_eq!(
        broken.add_variable(Variable::new("y", DataType::INTEGER)),
        Err(TokenizerError::IncorrectStackDataFormatting)
    );
}

#[test]
fn math_operator_symbols_resolve() {
    assert_eq!(MathOperator::from_string("+"), Ok(MathOperator::ADD));
    assert_eq!(MathOperator::from_string("-"), Ok(MathOperator::SUB));
    assert_eq!(MathOperator::from_string("*"), Ok(MathOperator::MUL));
    assert_eq!(MathOperator::from_string("/"), Ok(MathOperator::DIV));
    assert_eq!(
        MathOperator::from_string("%"),
        Err(TokenizerError::CouldNotParseMathOperator)
    );
}

#[test]
fn comparison_operator_symbols_resolve() {
    assert_eq!(
        ComparisonOperator::from_string("=="),
        Ok(ComparisonOperator::EQ)
    );
    assert_eq!(
        ComparisonOperator::from_string("!="),
        Ok(ComparisonOperator::NEQ)
    );
    assert_eq!(
        ComparisonOperator::from_string(">="),
        Ok(ComparisonOperator::GEQ)
    );
    assert_eq!(
        ComparisonOperator::from_string("<"),
        Ok(ComparisonOperator::LT)
    );
    assert_eq!(
        ComparisonOperator::from_string("+"),
        Err(TokenizerError::CouldNotParseComparisonOperator)
    );
}

#[test]
fn type_names_resolve() {
    assert_eq!(DataType::check_token_type("int"), Some(DataType::INTEGER));
    assert_eq!(DataType::check_token_type("flt"), Some(DataType::FLOAT));
    assert_eq!(DataType::check_token_type("tof"), None);
    assert!(DataType::INTEGER.is_integer());
    assert!(DataType::FLOAT.is_float());
    assert!(!DataType::BOOL.is_float());
}

#[test]
fn boolean_literals_parse_in_expressions() {
    let mut optimizer = Optimizer::init();
    optimizer.generate_optimized_content(
        "subroutine main ::[] -> int :\ndecl x :-[int] = true\ndecl y :-[int] = false\n;",
    );
    let mut tokenizer = Tokenizer::init();
    tokenizer.create_token_tree(&optimizer.content).unwrap();
    match &tokenizer.token_tree[0] {
        coding_language::tokenizer::Token::Function(f) => {
            match &f.functionaliy[0] {
                coding_language::tokenizer::Token::Declaration(d) => {
                    assert_eq!(d.value, Assignment::BOOL(1));
                }
                other => panic!("expected a declaration, got {:?}", other),
            }
            match &f.functionaliy[1] {
                coding_language::tokenizer::Token::Declaration(d) => {
                    assert_eq!(d.value, Assignment::BOOL(0));
                }
                other => panic!("expected a declaration, got {:?}", other),
            }
        }
        other => panic!("expected a function, got {:?}", other),
    }
}

#[test]
fn expressions_split_left_to_right() {
    let mut optimizer = Optimizer::init();
    optimizer
        .generate_optimized_content("subroutine main ::[] -> int :\ndecl x :-[int] = 1 + 2 - 3\n;");
    let mut tokenizer = Tokenizer::init();
    tokenizer.create_token_tree(&optimizer.content).unwrap();
    match &tokenizer.token_tree[0] {
        coding_language::tokenizer::Token::Function(f) => match &f.functionaliy[0] {
            coding_language::tokenizer::Token::Declaration(d) => {
                assert_eq!(
                    d.value,
                    Assignment::EVAL(
                        Box::new(Assignment::INTEGER(1)),
                        MathOperator::ADD,
                        Box::new(Assignment::EVAL(
                            Box::new(Assignment::INTEGER(2)),
                            MathOperator::SUB,
                            Box::new(Assignment::INTEGER(3)),
                        )),
                    )
                );
            }
            other => panic!("expected a declaration, got {:?}", other),
        },
        other => panic!("expected a function, got {:?}", other),
    }
}

#[test]
fn integer_text_parses_exactly() {
    assert_eq!(parse_i64("0"), Some(0));
    assert_eq!(parse_i64("-17"), Some(-17));
    assert_eq!(parse_i64("+8"), Some(8));
    assert_eq!(parse_i64("9223372036854775807"), Some(i64::MAX));
    assert_eq!(parse_i64("-9223372036854775808"), Some(i64::MIN));
    assert_eq!(parse_i64("9223372036854775808"), None);
    assert_eq!(parse_i64("1.5"), None);
    assert_eq!(parse_i64(""), None);
    assert_eq!(parse_i64("-"), None);
    assert_eq!(parse_i64("12a"), None);
    assert_eq!(parse_i64("0000000000000000000000007"), Some(7));
}

#[test]
fn float_literal_grammar() {
    assert!(is_float_text("1.5"));
    assert!(is_float_text("0.25"));
    assert!(is_float_text("2."));
    assert!(is_float_text(".5"));
    assert!(!is_float_text("."));
    assert!(!is_float_text("15"));
    assert!(!is_float_text("1.5.0"));
    assert!(!is_float_text("1e5"));
    assert!(!is_float_text("x.5"));
}

#[test]
fn decimal_rendering() {
    assert_eq!(u128_to_string(0), "0");
    assert_eq!(u128_to_string(120), "120");
    assert_eq!(i64_to_string(-45), "-45");
    assert_eq!(i64_to_string(i64::MIN), "-9223372036854775808");
}

#[test]
fn symbols_sort_longest_first() {
    let se = SyntaxElements::init();
    let sorted = sort_by_size(&se.get_all_symbols());
    for w in sorted.windows(2) {
        assert!(w[0].chars().count() >= w[1].chars().count());
    }
    assert_eq!(sorted[0].chars().count(), 3);
}

#[test]
fn symbol_table_families() {
    let se = SyntaxElements::init();
    assert_eq!(se.get_all_elements().len(), 31);
    assert_eq!(se.get_all_symbols().len(), 25);
    let ops = se.get_all_operator_symbols();
    assert_eq!(ops.len(), 10);
    assert_eq!(ops[0], "+");
    assert_eq!(ops[4], "==");
}

#[test]
fn utility_routines_start_with_the_comparison_block() {
    let all = coding_language::assembler::data::get_all();
    assert_eq!(all[0], "cmp_eq:");
    assert_eq!(all[1], "  cmp rdi, rsi");
    assert!(all.contains(&"cmp_leq:".to_string()));
}

#[test]
fn newlines_terminate_statements_after_separation() {
    let mut optimizer = Optimizer::init();
    optimizer.generate_optimized_content("decl x :-[int] = 1\ndecl y :-[int] = 2\n ");
    let count = optimizer.content.iter().filter(|t| *t == "\n").count();
    assert_eq!(count, 2);
}

#[test]
fn literal_terms_convert_to_assembly_values() {
    assert_eq!(
        Assignment::INTEGER(-3).to_assembly_value().unwrap(),
        "-3"
    );
    assert_eq!(
        Assignment::FLOAT("1.5".to_string()).to_assembly_value().unwrap(),
        "__float64__(1.5)"
    );
    // A float whose text alone would read as an integer gets the decimal
    // suffix so the assembler keeps treating it as a float.
    assert_eq!(
        Assignment::FLOAT("2".to_string()).to_assembly_value().unwrap(),
        "__float64__(2.0)"
    );
    assert!(Assignment::VAR(0).to_assembly_value().is_err());
    assert_eq!(coding_language::util::I64Extra::to_assembly_value(&7i64), "7");
}
