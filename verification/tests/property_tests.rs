use gwe::blocks::Block;
use gwe::expressions::Expression;
use gwe::expressions::parse_expression;
use gwe::generators::web_assembly::generate;
use gwe::parser::parse;
use gwe::tokenizer::tokenize;

#[test]
fn type_threading_resolves_local_declarations() {
    let program = parse(String::from(
        "fn f(): i32 {
    local x: i32 = 5;
    return x;
}",
    ))
    .unwrap();
    match &program.blocks[0] {
        Block::Function(function) => match &function.expressions[1] {
            Expression::Return { expression } => match &**expression {
                Expression::Variable { body, ty } => {
                    assert_eq!(body, "x");
                    assert_eq!(ty, "i32");
                }
                other => panic!("expected a variable, got {:?}", other),
            },
            other => panic!("expected a return, got {:?}", other),
        },
        other => panic!("expected a function, got {:?}", other),
    }
}

#[test]
fn first_declaration_wins_over_later_locals() {
    let program = parse(String::from(
        "fn f(a: i32): i32 {
    local a: f32 = 1;
    return a;
}",
    ))
    .unwrap();
    match &program.blocks[0] {
        Block::Function(function) => match &function.expressions[1] {
            Expression::Return { expression } => match &**expression {
                Expression::Variable { body, ty } => {
                    assert_eq!(body, "a");
                    assert_eq!(ty, "i32");
                }
                other => panic!("expected a variable, got {:?}", other),
            },
            other => panic!("expected a return, got {:?}", other),
        },
        other => panic!("expected a function, got {:?}", other),
    }
}

#[test]
fn addition_splits_at_first_plus_right_nested() {
    let tokens = tokenize(String::from("1 + 2 + 3"));
    let parsed = parse_expression(&tokens, &vec![], &vec![]).unwrap();
    assert_eq!(
        parsed,
        Expression::Addition {
            left: Box::new(Expression::Number {
                value: String::from("1"),
                ty: String::from("f32")
            }),
            right: Box::new(Expression::Addition {
                left: Box::new(Expression::Number {
                    value: String::from("2"),
                    ty: String::from("f32")
                }),
                right: Box::new(Expression::Number {
                    value: String::from("3"),
                    ty: String::from("f32")
                }),
            }),
        }
    )
}

#[test]
fn string_memory_layout_two_sequential_locals() {
    let program = parse(String::from(
        "fn main(): void {
    local a: string = \"Hi\";
    local b: string = \"World\";
}",
    ))
    .unwrap();
    let output = String::from(
        "(module
  (data (i32.const 0) \"Hi\")
  (data (i32.const 2) \"World\")
  (func $main
    (i32.const 0)
    (i32.const 2)
    (i32.const 2)
    (i32.const 5)
  )
)",
    );
    assert_eq!(generate(program).unwrap(), output);
}

#[test]
fn boolean_encoding_regression_guard() {
    let program_true = parse(String::from(
        "fn main(): i32 {
    return true;
}",
    ))
    .unwrap();
    assert_eq!(
        generate(program_true).unwrap(),
        String::from(
            "(module
  (func $main (result i32)
    (i32.const 0)
  )
)"
        )
    );
    let program_false = parse(String::from(
        "fn main(): i32 {
    return false;
}",
    ))
    .unwrap();
    assert_eq!(
        generate(program_false).unwrap(),
        String::from(
            "(module
  (func $main (result i32)
    (i32.const 1)
  )
)"
        )
    );
}

#[test]
fn two_malformed_blocks_report_both_errors() {
    assert_eq!(
        parse(String::from("fn one {\n}\nfn two {\n}")),
        Err(String::from(
            "Expected parens but got { at line 1, index 7\nExpected parens but got { at line 1, index 7"
        ))
    )
}

#[test]
fn unresolvable_variable_errors() {
    assert_eq!(
        parse(String::from("fn f(): i32 { return y; }")),
        Err(String::from("Couldn't find type for variable y"))
    )
}

#[test]
fn import_memory_size_too_large_errors() {
    assert_eq!(
        parse(String::from("import memory 99999999999 js.mem")),
        Err(String::from("number too large to fit in target type"))
    )
}

#[test]
fn import_memory_size_with_dot_errors() {
    assert_eq!(
        parse(String::from("import memory 1.5 js.mem")),
        Err(String::from("invalid digit found in string"))
    )
}

#[test]
fn for_without_local_initializer_fails_to_emit() {
    let program = parse(String::from(
        "fn main(): void {
    for (1, 10, 1) {
        log(1);
    };
}",
    ))
    .unwrap();
    assert_eq!(
        generate(program),
        Err(String::from("For loop initializer must be a local assignment"))
    );
}

#[test]
fn empty_source_tokenizes_to_nothing() {
    assert_eq!(tokenize(String::from("")).len(), 0);
}

#[test]
fn blank_lines_do_not_form_blocks() {
    assert_eq!(
        gwe::blocks::into_blocks(String::from("   \n\t\n\n")),
        Vec::<String>::new()
    );
}

#[test]
fn empty_program_renders_to_nothing() {
    let program = parse(String::from("")).unwrap();
    assert_eq!(gwe::generators::gwe::generate(program), String::from(""));
}

#[test]
fn nested_call_arguments_keep_their_commas() {
    let tokens = tokenize(String::from("f(g(1, 2), 3)"));
    let parsed = parse_expression(&tokens, &vec![], &vec![]).unwrap();
    assert_eq!(
        parsed,
        Expression::FunctionCall {
            name: String::from("f"),
            args: vec![
                Expression::FunctionCall {
                    name: String::from("g"),
                    args: vec![
                        Expression::Number {
                            value: String::from("1"),
                            ty: String::from("f32")
                        },
                        Expression::Number {
                            value: String::from("2"),
                            ty: String::from("f32")
                        },
                    ],
                },
                Expression::Number {
                    value: String::from("3"),
                    ty: String::from("f32")
                },
            ],
        }
    )
}

#[test]
fn token_text_reports_diagnostic_spelling() {
    assert_eq!(gwe::tokenizer::Token::Assign.text(), String::from("="));
    assert_eq!(gwe::tokenizer::Token::Fn.text(), String::from("fn"));
    assert_eq!(gwe::tokenizer::Token::LeftParen.text(), String::from("("));
    assert_eq!(gwe::tokenizer::Token::RightParen.text(), String::from(")"));
}

#[test]
fn expression_map_applies_the_transformation() {
    let number = Expression::Number {
        value: String::from("1"),
        ty: String::from("f32"),
    };
    let mapped = number.map(|e| match e {
        Expression::Number { value, ty: _ } => Expression::Number {
            value,
            ty: String::from("i32"),
        },
        other => other,
    });
    assert_eq!(
        mapped,
        Expression::Number {
            value: String::from("1"),
            ty: String::from("i32")
        }
    );
}

#[test]
fn global_bare_number_takes_declared_type() {
    let program = parse(String::from(
        "fn f(): void {
    global x: i32 = 5;
}",
    ))
    .unwrap();
    match &program.blocks[0] {
        Block::Function(function) => {
            assert_eq!(
                function.expressions[0],
                Expression::GlobalAssign {
                    name: String::from("x"),
                    ty: String::from("i32"),
                    expression: Box::new(Expression::Number {
                        value: String::from("5"),
                        ty: String::from("i32")
                    }),
                }
            );
        }
        other => panic!("expected a function, got {:?}", other),
    }
    let program = parse(String::from(
        "fn f(): void {
    global x: i32 = 5;
}",
    ))
    .unwrap();
    assert_eq!(
        generate(program).unwrap(),
        String::from(
            "(module
  (global $x (mut i32))
  (func $f
    (global.set $x (i32.const 5))
  )
)"
        )
    );
}

#[test]
fn nested_if_inside_an_if_branch_parses() {
    let program = parse(String::from(
        "fn main(): void {
    if (1) { if (2) { log(3) } { log(4) } } { log(5) };
}",
    ))
    .unwrap();
    match &program.blocks[0] {
        Block::Function(function) => match &function.expressions[0] {
            Expression::IfStatement {
                predicate: _,
                success,
                fail,
            } => {
                assert!(matches!(&**success, Expression::IfStatement { .. }));
                assert!(matches!(&**fail, Expression::FunctionCall { .. }));
            }
            other => panic!("expected an if, got {:?}", other),
        },
        other => panic!("expected a function, got {:?}", other),
    }
}

#[test]
fn semicolons_inside_nested_braces_do_not_split() {
    let program = parse(String::from(
        "fn main(): void {
    for (local x: i32 = 0, 10, 1) {
        if (x) { log(1) } { log(2) };
        log(3);
    };
}",
    ))
    .unwrap();
    match &program.blocks[0] {
        Block::Function(function) => {
            assert_eq!(function.expressions.len(), 1);
            match &function.expressions[0] {
                Expression::ForStatement { body, .. } => {
                    assert_eq!(body.len(), 2);
                    assert!(matches!(&body[0], Expression::IfStatement { .. }));
                    assert!(matches!(&body[1], Expression::FunctionCall { .. }));
                }
                other => panic!("expected a for, got {:?}", other),
            }
        }
        other => panic!("expected a function, got {:?}", other),
    }
}

#[test]
fn for_lowering_emits_initializer_body_increment_and_test() {
    let for_statement = Expression::ForStatement {
        initial_value: Box::new(Expression::LocalAssign {
            name: String::from("x"),
            ty: String::from("i32"),
            expression: Box::new(Expression::Number {
                value: String::from("0"),
                ty: String::from("i32"),
            }),
        }),
        incrementor: Box::new(Expression::Number {
            value: String::from("1"),
            ty: String::from("i32"),
        }),
        break_condition: Box::new(Expression::Number {
            value: String::from("10"),
            ty: String::from("i32"),
        }),
        body: vec![Expression::FunctionCall {
            name: String::from("log"),
            args: vec![Expression::Variable {
                body: String::from("x"),
                ty: String::from("i32"),
            }],
        }],
    };
    assert_eq!(
        gwe::generators::web_assembly::generate_expression(&for_statement).unwrap(),
        String::from(
            "(local.set $x (i32.const 0))
(loop $loop
  (local.get $x)
  (call $log)

  (local.get $x)
  (i32.const 1)
  (i32.add)
  (local.set $x)

  (local.get $x)
  (i32.const 10)
  (i32.lt_s)
  (br_if $loop)
)"
        )
    );
}

#[test]
fn string_extraction_allocates_monotonic_offsets() {
    let statements = vec![
        Expression::LocalAssign {
            name: String::from("a"),
            ty: String::from("string"),
            expression: Box::new(Expression::String {
                body: String::from("Hi"),
            }),
        },
        Expression::LocalAssign {
            name: String::from("b"),
            ty: String::from("string"),
            expression: Box::new(Expression::String {
                body: String::from("World"),
            }),
        },
    ];
    let (datas, rewritten) =
        gwe::generators::web_assembly::extract_strings(&statements).unwrap();
    assert_eq!(
        datas,
        vec![
            String::from("(data (i32.const 0) \"Hi\")"),
            String::from("(data (i32.const 2) \"World\")")
        ]
    );
    assert_eq!(
        rewritten,
        vec![
            Expression::MemoryReference {
                offset: 0,
                length: 2
            },
            Expression::MemoryReference {
                offset: 2,
                length: 5
            },
        ]
    );
}
