use bajzel_lib::error::BajzelError;
use bajzel_lib::evaluator::generator::GenDefinition;
use bajzel_lib::evaluator::structure::{
    AsciiStringDef, ByteNumberDef, ByteOrder, BytesDef, Field, FieldDefinition,
    GroupDefinition, NumberFormat, TextNumberDef,
};
use bajzel_lib::evaluator::{
    define_const_field, define_var_field, eval_expr, eval_expr_to_i64, evaluate_program,
    resolve_kind, Evaluator, ProgramEnv,
};
use bajzel_lib::lexer::{lex_tokens, Tokens};
use bajzel_lib::parser::{parse_tokens, Expr, Ident, Literal, Program, Statement};

fn num(value: i64) -> Expr {
    Expr::LiteralExpr(Literal::IntegerLiteral(value))
}

fn pair(a: i64, b: i64) -> Expr {
    Expr::Group(vec![num(a), num(b)])
}

fn syntax<T>(msg: &str) -> Result<T, BajzelError> {
    Err(BajzelError::Syntax(msg.to_owned()))
}

fn evaluate(src: &str) -> Result<ProgramEnv, BajzelError> {
    let tokens = lex_tokens(src).unwrap();
    let program = parse_tokens(Tokens::new(&tokens)).unwrap();
    evaluate_program(program)
}

const EXAMPLE: &str = r#"
    DEFINE string_cmd
        string AS cmd -> LEN(4),
        " "
        string AS sub_cmd -> LEN(1 10),
        " "
        i32 AS param -> RANGE(0 5),
    GENERATE string_cmd WITH
        OUT_MIN = 5
        OUT_MAX = 32
        TERM = LF
"#;

#[test]
fn example_program_evaluates() {
    let env = evaluate(EXAMPLE).unwrap();
    let group = env.get_group("string_cmd").unwrap();
    let expected = vec![
        Field {
            def: FieldDefinition::AsciiString(AsciiStringDef { length_min: 4, length_max: 4 }),
            alias: Some("cmd".to_owned()),
        },
        Field { def: FieldDefinition::ConstString(" ".to_owned()), alias: None },
        Field {
            def: FieldDefinition::AsciiString(AsciiStringDef { length_min: 1, length_max: 10 }),
            alias: Some("sub_cmd".to_owned()),
        },
        Field { def: FieldDefinition::ConstString(" ".to_owned()), alias: None },
        Field {
            def: FieldDefinition::TextNumber(TextNumberDef {
                format: NumberFormat::Int32,
                min_value: 0,
                max_value: 5,
                display: None,
            }),
            alias: Some("param".to_owned()),
        },
    ];
    assert_eq!(group.fields, expected);
    let gen = env.get_generator().unwrap();
    assert_eq!(
        gen,
        &GenDefinition { name: "string_cmd".to_owned(), out_min: 5, out_max: 32, term: vec![0x0A] }
    );
}

#[test]
fn where_section_updates_declared_fields() {
    let env = evaluate(
        r#"
        DEFINE cmd
            string AS name
            u8 AS size
        WHERE
            name -> LEN(2 3)
            size -> RANGE(1 9)
        GENERATE cmd
    "#,
    )
    .unwrap();
    let group = env.get_group("cmd").unwrap();
    assert_eq!(
        group.fields[0].def,
        FieldDefinition::AsciiString(AsciiStringDef { length_min: 2, length_max: 3 })
    );
    assert_eq!(
        group.fields[1].def,
        FieldDefinition::TextNumber(TextNumberDef {
            format: NumberFormat::Uint8,
            min_value: 1,
            max_value: 9,
            display: None,
        })
    );
}

#[test]
fn first_statement_must_be_define() {
    let first = vec![
        Statement::StartGeneratorDefinition("g".into()),
        Statement::Run,
        Statement::StartFieldsSection,
        Statement::MakeCurrentField("f".into()),
        Statement::DefineVariableField("u8".into(), None),
        Statement::DefineConstField(Literal::IntegerLiteral(1), None),
        Statement::UpdateField("LEN".into(), num(1)),
        Statement::UpdateParam("TERM".into(), num(1)),
    ];
    for statement in first {
        let program: Program = vec![statement, Statement::StartGroupDefinition("g".into())].into();
        assert_eq!(
            evaluate_program(program).err(),
            Some(BajzelError::Syntax("at least one DEFINE section is required".to_owned()))
        );
    }
}

#[test]
fn empty_program_is_not_finished() {
    let program: Program = Vec::new().into();
    assert_eq!(evaluate_program(program).err(), Some(BajzelError::ProgramNotFinished));
}

#[test]
fn program_without_generator_is_not_finished() {
    let program: Program = vec![
        Statement::StartGroupDefinition("cmd".into()),
        Statement::DefineVariableField("u8".into(), None),
    ]
    .into();
    assert_eq!(evaluate_program(program).err(), Some(BajzelError::ProgramNotFinished));
    let program: Program = vec![
        Statement::StartGroupDefinition("cmd".into()),
        Statement::StartGeneratorDefinition("cmd".into()),
    ]
    .into();
    assert_eq!(evaluate_program(program).err(), Some(BajzelError::ProgramNotFinished));
    assert_eq!(
        evaluate("DEFINE cmd u8").err(),
        Some(BajzelError::Syntax("unexpected statement while defining fields".to_owned()))
    );
}

#[test]
fn second_generate_is_refused() {
    let program: Program = vec![
        Statement::StartGroupDefinition("a".into()),
        Statement::StartGeneratorDefinition("a".into()),
        Statement::StartGeneratorDefinition("a".into()),
        Statement::Run,
    ]
    .into();
    assert_eq!(
        evaluate_program(program).err(),
        Some(BajzelError::Syntax("single GENERATE section allowed".to_owned()))
    );
    assert_eq!(
        evaluate("DEFINE a u8 GENERATE a WITH OUT_MAX = 3 GENERATE a").err(),
        Some(BajzelError::Syntax("single GENERATE section allowed".to_owned()))
    );
}

#[test]
fn create_generator_twice_fails() {
    let mut env = ProgramEnv::default();
    assert_eq!(env.create_generator("a".into()), Ok(()));
    assert_eq!(env.create_generator("b".into()), syntax("single GENERATE section allowed"));
    assert_eq!(env.get_generator().unwrap().name, "a");
}

#[test]
fn statements_after_the_end_fail() {
    let program: Program = vec![
        Statement::StartGroupDefinition("a".into()),
        Statement::StartGeneratorDefinition("a".into()),
        Statement::Run,
        Statement::Run,
    ]
    .into();
    assert_eq!(
        evaluate_program(program).err(),
        Some(BajzelError::Syntax("unexpected statement after the end of the program".to_owned()))
    );
}

#[test]
fn unlisted_statements_fail_in_each_state() {
    let state = Evaluator::DefiningFields(ProgramEnv::default());
    assert_eq!(
        state.eval(Statement::Run).err(),
        Some(BajzelError::Syntax("unexpected statement while defining fields".to_owned()))
    );
    let state = Evaluator::DefiningFieldAttr(ProgramEnv::default());
    assert_eq!(
        state.eval(Statement::StartFieldsSection).err(),
        Some(BajzelError::Syntax(
            "unexpected statement while defining field attributes".to_owned()
        ))
    );
    let state = Evaluator::UpdatingFieldAttrs(ProgramEnv::default());
    assert_eq!(
        state.eval(Statement::DefineVariableField("u8".into(), None)).err(),
        Some(BajzelError::Syntax(
            "unexpected statement while updating field attributes".to_owned()
        ))
    );
    let state = Evaluator::DefiningGenerator(ProgramEnv::default());
    assert_eq!(
        state.eval(Statement::StartGroupDefinition("g".into())).err(),
        Some(BajzelError::Syntax("unexpected statement while defining the generator".to_owned()))
    );
}

#[test]
fn states_follow_the_table() {
    let state = Evaluator::Started(ProgramEnv::default());
    let state = state.eval(Statement::StartGroupDefinition("g".into())).unwrap();
    assert!(matches!(state, Evaluator::DefiningFields(_)));
    let state = state.eval(Statement::DefineVariableField("string".into(), Some("s".into())));
    let state = state.unwrap();
    assert!(matches!(state, Evaluator::DefiningFields(_)));
    let state = state.eval(Statement::MakeCurrentField("s".into())).unwrap();
    assert!(matches!(state, Evaluator::DefiningFieldAttr(_)));
    let state = state.eval(Statement::UpdateField("LEN".into(), num(2))).unwrap();
    assert!(matches!(state, Evaluator::DefiningFieldAttr(_)));
    let state = state.eval(Statement::DefineVariableField("u8".into(), None)).unwrap();
    assert!(matches!(state, Evaluator::DefiningFields(_)));
    let state = state.eval(Statement::StartFieldsSection).unwrap();
    assert!(matches!(state, Evaluator::UpdatingFieldAttrs(_)));
    let state = state.eval(Statement::MakeCurrentField("s".into())).unwrap();
    assert!(matches!(state, Evaluator::UpdatingFieldAttrs(_)));
    let state = state.eval(Statement::UpdateField("LEN".into(), num(3))).unwrap();
    assert!(matches!(state, Evaluator::UpdatingFieldAttrs(_)));
    let state = state.eval(Statement::StartGeneratorDefinition("g".into())).unwrap();
    assert!(matches!(state, Evaluator::DefiningGenerator(_)));
    let state = state.eval(Statement::UpdateParam("OUT_MAX".into(), num(7))).unwrap();
    assert!(matches!(state, Evaluator::DefiningGenerator(_)));
    let state = state.eval(Statement::Run).unwrap();
    match state {
        Evaluator::Finished(env) => {
            assert_eq!(env.get_generator().unwrap().out_max, 7);
            assert_eq!(
                env.get_group("g").unwrap().fields[0].def,
                FieldDefinition::AsciiString(AsciiStringDef { length_min: 3, length_max: 3 })
            );
        }
        _ => panic!("not finished"),
    }
}

#[test]
fn fields_need_a_group() {
    let state = Evaluator::DefiningFields(ProgramEnv::default());
    assert_eq!(
        state.eval(Statement::DefineVariableField("u8".into(), None)).err(),
        Some(BajzelError::NotConstructedProperly)
    );
    let mut env = ProgramEnv::default();
    assert!(!env.has_current_group());
    assert_eq!(
        define_const_field(Literal::IntegerLiteral(1), &mut env, None),
        Err(BajzelError::NotConstructedProperly)
    );
}

#[test]
fn a_group_defined_again_is_emptied() {
    let mut env = ProgramEnv::default();
    env.create_group("a".into());
    env.create_field(FieldDefinition::ConstString("x".to_owned()), None);
    env.create_group("b".into());
    env.create_field(FieldDefinition::ConstString("y".to_owned()), None);
    env.create_group("a".into());
    assert_eq!(env.get_group("a").unwrap().fields.len(), 0);
    assert_eq!(env.get_group("b").unwrap().fields.len(), 1);
    env.create_field(FieldDefinition::ConstString("z".to_owned()), Some("zed".into()));
    assert_eq!(env.get_group("a").unwrap().fields.len(), 1);
    assert_eq!(env.get_group("c").err(), Some(BajzelError::NotConstructedProperly));
}

#[test]
fn accessors_fail_on_an_empty_environment() {
    let env = ProgramEnv::default();
    assert_eq!(env.get_generator().err(), Some(BajzelError::NotConstructedProperly));
    assert_eq!(env.get_group("x").err(), Some(BajzelError::NotConstructedProperly));
    assert_eq!(env.get_field().err(), Some(BajzelError::NotConstructedProperly));
    assert!(!env.has_generator());
}

#[test]
fn current_field_is_found_by_alias() {
    let mut env = ProgramEnv::default();
    env.create_group("g".into());
    env.create_field(FieldDefinition::AsciiString(AsciiStringDef::new()), Some("a".into()));
    env.create_field(FieldDefinition::Bytes(BytesDef::new()), Some("b".into()));
    assert_eq!(
        env.get_field().err(),
        Some(BajzelError::Syntax("no field was made current".to_owned()))
    );
    env.use_field("b".into());
    assert_eq!(env.get_field().unwrap().def, FieldDefinition::Bytes(BytesDef::new()));
    env.use_field("c".into());
    assert_eq!(env.get_field().err(), Some(BajzelError::Syntax("unknown field (c)".to_owned())));
    assert_eq!(env.update_field("LEN".into(), num(1)), syntax("unknown field (c)"));
    env.use_field("a".into());
    assert_eq!(env.update_field("LEN".into(), num(7)), Ok(()));
    assert_eq!(
        env.get_field().unwrap().def,
        FieldDefinition::AsciiString(AsciiStringDef { length_min: 7, length_max: 7 })
    );
    env.clear_field();
    assert_eq!(env.update_field("LEN".into(), num(1)), syntax("no field was made current"));
}

#[test]
fn number_formats_have_their_natural_bounds() {
    assert_eq!(NumberFormat::Int8.min_as_i128(), -128);
    assert_eq!(NumberFormat::Int8.max_as_i128(), 127);
    assert_eq!(NumberFormat::Int16.min_as_i128(), -32768);
    assert_eq!(NumberFormat::Int16.max_as_i128(), 32767);
    assert_eq!(NumberFormat::Int32.min_as_i128(), -2147483648);
    assert_eq!(NumberFormat::Int32.max_as_i128(), 2147483647);
    assert_eq!(NumberFormat::Int64.min_as_i128(), i64::MIN as i128);
    assert_eq!(NumberFormat::Int64.max_as_i128(), i64::MAX as i128);
    assert_eq!(NumberFormat::Uint8.min_as_i128(), 0);
    assert_eq!(NumberFormat::Uint8.max_as_i128(), 255);
    assert_eq!(NumberFormat::Uint16.max_as_i128(), 65535);
    assert_eq!(NumberFormat::Uint32.max_as_i128(), 4294967295);
    assert_eq!(NumberFormat::Uint64.min_as_i128(), 0);
    assert_eq!(NumberFormat::Uint64.max_as_i128(), u64::MAX as i128);
    assert_eq!(NumberFormat::Int8.byte_width(), 1);
    assert_eq!(NumberFormat::Uint16.byte_width(), 2);
    assert_eq!(NumberFormat::Int32.byte_width(), 4);
    assert_eq!(NumberFormat::Uint64.byte_width(), 8);
}

#[test]
fn number_definitions_from_names() {
    assert_eq!(
        TextNumberDef::from_str("u16"),
        Ok(TextNumberDef {
            format: NumberFormat::Uint16,
            min_value: 0,
            max_value: 65535,
            display: None
        })
    );
    assert_eq!(TextNumberDef::from_str("i64"), Ok(TextNumberDef::new(NumberFormat::Int64)));
    assert_eq!(
        TextNumberDef::from_str("I64"),
        Err(BajzelError::Conversion("I64".to_owned()))
    );
    assert_eq!(
        TextNumberDef::from_str("le_u16"),
        Err(BajzelError::Conversion("le_u16".to_owned()))
    );
    assert_eq!(
        ByteNumberDef::from_str("le_u16"),
        Ok(ByteNumberDef {
            format: NumberFormat::Uint16,
            endianess: ByteOrder::LittleEndian,
            min_value: 0,
            max_value: 65535
        })
    );
    assert_eq!(
        ByteNumberDef::from_str("be_i32"),
        Ok(ByteNumberDef::new(NumberFormat::Int32, ByteOrder::BigEndian))
    );
    assert_eq!(
        ByteNumberDef::from_str("be_i64").unwrap().min_value,
        i64::MIN as i128
    );
    assert_eq!(ByteNumberDef::from_str("le_u8"), Err(BajzelError::Conversion("le_u8".to_owned())));
    assert_eq!(ByteNumberDef::from_str(""), Err(BajzelError::Conversion("".to_owned())));
}

#[test]
fn kinds_resolve_to_definitions() {
    assert_eq!(
        resolve_kind("string"),
        Some(FieldDefinition::AsciiString(AsciiStringDef { length_min: 0, length_max: 4096 }))
    );
    assert_eq!(
        resolve_kind("bytes"),
        Some(FieldDefinition::Bytes(BytesDef { length_min: 0, length_max: 4096 }))
    );
    assert_eq!(
        resolve_kind("i8"),
        Some(FieldDefinition::TextNumber(TextNumberDef::new(NumberFormat::Int8)))
    );
    assert_eq!(
        resolve_kind("be_u64"),
        Some(FieldDefinition::ByteNumber(ByteNumberDef::new(
            NumberFormat::Uint64,
            ByteOrder::BigEndian
        )))
    );
    assert_eq!(resolve_kind("String"), None);
    assert_eq!(resolve_kind("ref"), None);
    assert_eq!(AsciiStringDef::default(), AsciiStringDef::new());
    assert_eq!(BytesDef::default(), BytesDef::new());
}

#[test]
fn unsupported_kind_is_named() {
    let mut env = ProgramEnv::default();
    env.create_group("g".into());
    assert_eq!(
        define_var_field("ref".to_owned(), &mut env, None),
        syntax("Unsupported variable field type (ref)")
    );
    assert_eq!(
        evaluate("DEFINE g U32 GENERATE g").err(),
        Some(BajzelError::Syntax("Unsupported variable field type (U32)".to_owned()))
    );
    assert_eq!(define_var_field("u32".to_owned(), &mut env, Some("n".into())), Ok(()));
    assert_eq!(env.get_group("g").unwrap().fields.len(), 1);
}

#[test]
fn constant_fields() {
    let mut env = ProgramEnv::default();
    env.create_group("g".into());
    assert_eq!(define_const_field(Literal::IntegerLiteral(42), &mut env, None), Ok(()));
    assert_eq!(
        define_const_field(Literal::StringLiteral("BM".to_owned()), &mut env, Some("m".into())),
        Ok(())
    );
    assert_eq!(
        define_const_field(Literal::BytesLiteral(vec![1, 2]), &mut env, None),
        syntax("bytes literals not implemented")
    );
    assert_eq!(
        define_const_field(Literal::Reserved("NULL".into()), &mut env, None),
        syntax("reserved literals not implemented")
    );
    let group = env.get_group("g").unwrap();
    assert_eq!(
        group.fields,
        vec![
            Field {
                def: FieldDefinition::TextNumber(TextNumberDef::new(NumberFormat::Int64)),
                alias: None
            },
            Field {
                def: FieldDefinition::ConstString("BM".to_owned()),
                alias: Some("m".to_owned())
            },
        ]
    );
}

#[test]
fn expressions_stand_for_themselves() {
    assert_eq!(eval_expr(num(3)), Ok(num(3)));
    assert_eq!(eval_expr(pair(1, 2)), Ok(pair(1, 2)));
}

#[test]
fn integers_of_expressions() {
    assert_eq!(eval_expr_to_i64(&num(42)), Ok(42));
    assert_eq!(eval_expr_to_i64(&num(i64::MIN)), Ok(i64::MIN));
    assert_eq!(
        eval_expr_to_i64(&pair(1, 2)),
        Err(BajzelError::Expr("eval_expr_to_i64: group expr not expected".to_owned()))
    );
    assert_eq!(
        eval_expr_to_i64(&Expr::LiteralExpr(Literal::StringLiteral("x".to_owned()))),
        Err(BajzelError::Expr("eval_expr_to_i64: integer literal expected".to_owned()))
    );
}

#[test]
fn length_of_a_string() {
    let mut def = AsciiStringDef::new();
    assert_eq!(def.update("LEN", num(4)), Ok(()));
    assert_eq!(def, AsciiStringDef { length_min: 4, length_max: 4 });
    assert_eq!(def.update("LEN", num(0)), Ok(()));
    assert_eq!(def, AsciiStringDef { length_min: 0, length_max: 0 });
    assert_eq!(def.update("LEN", pair(1, 10)), Ok(()));
    assert_eq!(def, AsciiStringDef { length_min: 1, length_max: 10 });
    assert_eq!(def.update("LEN", pair(3, 3)), Ok(()));
    assert_eq!(def, AsciiStringDef { length_min: 3, length_max: 3 });
    assert_eq!(def.update("LEN", num(-1)), syntax("LEN(value): value < 0 is not allowed"));
    assert_eq!(def.update("LEN", pair(5, 1)), syntax("LEN(min max): min > max is not allowed"));
    assert_eq!(def.update("LEN", pair(-1, 3)), syntax("LEN(min max): min < 0 is not allowed"));
    assert_eq!(def.update("LEN", pair(-1, -3)), syntax("LEN(min max): min > max is not allowed"));
    assert_eq!(
        def.update("LEN", Expr::LiteralExpr(Literal::StringLiteral("4".to_owned()))),
        syntax("LEN(value): expects an integer")
    );
    assert_eq!(
        def.update("LEN", Expr::Group(vec![num(1), num(2), num(3)])),
        syntax("LEN(min max): expects 1 or 2 values")
    );
    assert_eq!(
        def.update("LEN", Expr::Group(vec![num(1), pair(2, 3)])),
        Err(BajzelError::Expr("eval_expr_to_i64: group expr not expected".to_owned()))
    );
    assert_eq!(def.update("len", num(4)), syntax("unsupported string attribute name (len)"));
    assert_eq!(def.update("RANGE", pair(1, 2)), syntax("unsupported string attribute name (RANGE)"));
    assert_eq!(def, AsciiStringDef { length_min: 3, length_max: 3 });
}

#[test]
fn range_of_a_text_number() {
    let mut def = TextNumberDef::new(NumberFormat::Int8);
    assert_eq!(def.update("RANGE", pair(0, 10)), Ok(()));
    assert_eq!((def.min_value, def.max_value), (0, 10));
    assert_eq!(def.update("RANGE", pair(5, -5)), Ok(()));
    assert_eq!((def.min_value, def.max_value), (5, -5));
    assert_eq!(def.format, NumberFormat::Int8);
    assert_eq!(def.update("RANGE", num(3)), syntax("RANGE(min max): expects exactly 2 values"));
    assert_eq!(
        def.update("RANGE", Expr::Group(vec![num(3)])),
        syntax("RANGE(min max): expects exactly 2 values")
    );
    assert_eq!(
        def.update(
            "RANGE",
            Expr::Group(vec![num(3), Expr::LiteralExpr(Literal::Reserved("LF".into()))])
        ),
        Err(BajzelError::Expr("eval_expr_to_i64: integer literal expected".to_owned()))
    );
    assert_eq!(def.update("LEN", num(3)), syntax("unsupported text number attribute (LEN)"));
    assert_eq!((def.min_value, def.max_value), (5, -5));
}

#[test]
fn fields_without_attributes() {
    let mut def = FieldDefinition::ConstString("x".to_owned());
    assert_eq!(def.update("LEN", num(1)), syntax("'string' type does not have any attributes"));
    let mut def = ByteNumberDef::new(NumberFormat::Int16, ByteOrder::BigEndian);
    assert_eq!(
        def.update("RANGE", pair(1, 2)),
        syntax("byte number attributes are not implemented (RANGE)")
    );
    let mut def = BytesDef::new();
    assert_eq!(def.update("LEN", num(2)), syntax("unsupported bytes attribute name (LEN)"));
    assert_eq!(def, BytesDef { length_min: 0, length_max: 4096 });
}

#[test]
fn groups_find_fields_by_alias() {
    let mut group = GroupDefinition::default();
    assert_eq!(group.find_field("a"), None);
    group.add_field(Field { def: FieldDefinition::ConstString("1".to_owned()), alias: None });
    group.add_field(Field {
        def: FieldDefinition::AsciiString(AsciiStringDef::new()),
        alias: Some("a".to_owned()),
    });
    group.add_field(Field {
        def: FieldDefinition::Bytes(BytesDef::new()),
        alias: Some("a".to_owned()),
    });
    assert_eq!(group.find_field("a"), Some(1));
    assert_eq!(group.find_field("b"), None);
    assert_eq!(group.update_field_at(1, "LEN", num(9)), Ok(()));
    assert_eq!(
        group.fields[1].def,
        FieldDefinition::AsciiString(AsciiStringDef { length_min: 9, length_max: 9 })
    );
}

#[test]
fn generator_defaults() {
    let gen = GenDefinition::new("cmd".to_owned());
    assert_eq!(
        gen,
        GenDefinition { name: "cmd".to_owned(), out_min: 0, out_max: 4096, term: Vec::new() }
    );
}

#[test]
fn output_lengths() {
    let mut gen = GenDefinition::new("cmd".to_owned());
    assert_eq!(gen.set_min_output_len(num(5)), Ok(()));
    assert_eq!(gen.set_max_output_len(num(42)), Ok(()));
    assert_eq!((gen.out_min, gen.out_max), (5, 42));
    assert_eq!(gen.set_max_output_len(num(-1)), Ok(()));
    assert_eq!(gen.out_max, 4294967295);
    assert_eq!(gen.set_min_output_len(num(4294967296 + 7)), Ok(()));
    assert_eq!(gen.out_min, 7);
    assert_eq!(gen.set_min_output_len(pair(1, 2)), syntax("OUT_MIN: expected an integer"));
    assert_eq!(
        gen.set_max_output_len(Expr::LiteralExpr(Literal::StringLiteral("9".to_owned()))),
        syntax("OUT_MAX: expected an integer")
    );
    assert_eq!((gen.out_min, gen.out_max), (7, 4294967295));
}

#[test]
fn terminator_is_appended() {
    let mut gen = GenDefinition::new("cmd".to_owned());
    assert_eq!(gen.set_term(num(65)), Ok(()));
    assert_eq!(gen.set_term(num(0)), Ok(()));
    assert_eq!(gen.set_term(num(255)), Ok(()));
    assert_eq!(gen.set_term(Expr::LiteralExpr(Literal::StringLiteral("hé".to_owned()))), Ok(()));
    assert_eq!(gen.set_term(Expr::LiteralExpr(Literal::BytesLiteral(vec![1, 2, 3]))), Ok(()));
    assert_eq!(gen.set_term(Expr::LiteralExpr(Literal::Reserved("LF".into()))), Ok(()));
    assert_eq!(gen.set_term(Expr::LiteralExpr(Literal::Reserved("NULL".into()))), Ok(()));
    assert_eq!(gen.set_term(Expr::LiteralExpr(Literal::Reserved("RF".into()))), Ok(()));
    assert_eq!(
        gen.term,
        vec![65, 0, 255, b'h', 0xC3, 0xA9, 1, 2, 3, 0x0A, 0x00, 0x0D]
    );
    assert_eq!(gen.set_term(num(256)), syntax("TERM: Decimal ASCII value expected"));
    assert_eq!(gen.set_term(num(-1)), syntax("TERM: Decimal ASCII value expected"));
    assert_eq!(
        gen.set_term(Expr::LiteralExpr(Literal::Reserved("lf".into()))),
        syntax("TERM: unsupported reserved literal")
    );
    assert_eq!(gen.set_term(pair(1, 2)), syntax("TERM: expected a single literal"));
    assert_eq!(gen.term.len(), 12);
}

#[test]
fn parameters_are_named_in_any_case() {
    let mut env = ProgramEnv::default();
    assert_eq!(
        env.update_param("OUT_MIN".into(), num(1)),
        Err(BajzelError::NotConstructedProperly)
    );
    env.create_generator(Ident("g".to_owned())).unwrap();
    assert_eq!(env.update_param("out_min".into(), num(1)), Ok(()));
    assert_eq!(env.update_param("Out_Max".into(), num(2)), Ok(()));
    assert_eq!(env.update_param("term".into(), num(3)), Ok(()));
    assert_eq!(env.update_param("TERM".into(), num(4)), Ok(()));
    assert_eq!(
        env.update_param("OUT".into(), num(4)),
        syntax("unsupported generator parameter (OUT)")
    );
    assert_eq!(env.update_param("OUT_MAX".into(), pair(1, 2)), syntax("OUT_MAX: expected an integer"));
    let gen = env.get_generator().unwrap();
    assert_eq!((gen.out_min, gen.out_max), (1, 2));
    assert_eq!(gen.term, vec![3, 4]);
}
