use bajzel_lib::error::BajzelError;
use bajzel_lib::evaluator::structure::{
    AsciiStringDef, ByteNumberDef, ByteOrder, BytesDef, FieldDefinition, NumberDisplayFormat,
    NumberFormat, TextNumberDef,
};
use bajzel_lib::evaluator::{evaluate_program, ProgramEnv};
use bajzel_lib::generator::render::{append_truncated, render_bytes, render_text, reversed};
use bajzel_lib::generator::{is_group_sound, is_sound, Gen, Pixie};
use bajzel_lib::lexer::{lex_tokens, Tokens};
use bajzel_lib::parser::{parse_tokens, Expr, Literal};
use bajzel_lib::random::Dice;
use std::ops::ControlFlow;

fn evaluate(src: &str) -> ProgramEnv {
    let tokens = lex_tokens(src).unwrap();
    let program = parse_tokens(Tokens::new(&tokens)).unwrap();
    evaluate_program(program).unwrap()
}

fn env_with(fields: Vec<FieldDefinition>, out_max: i64) -> ProgramEnv {
    let mut env = ProgramEnv::default();
    env.create_group("g".into());
    for def in fields {
        env.create_field(def, None);
    }
    env.create_generator("g".into()).unwrap();
    env.update_param("OUT_MAX".into(), Expr::LiteralExpr(Literal::IntegerLiteral(out_max)))
        .unwrap();
    env
}

fn constant(text: &str) -> FieldDefinition {
    FieldDefinition::ConstString(text.to_owned())
}

fn is_alnum(bytes: &[u8]) -> bool {
    bytes.iter().all(|b| b.is_ascii_alphanumeric())
}

struct Grumpy;

impl Pixie for Grumpy {
    fn is_happy(&self) -> bool {
        false
    }
}

#[test]
fn fixed_length_string_gives_that_many_letters_and_digits() {
    let env = evaluate("DEFINE g string AS s -> LEN(3 3), GENERATE g WITH OUT_MAX = 10");
    let gen = Gen::default();
    for seed in 0..200 {
        let out = gen.generate_with(&env, &mut Dice::seeded(seed)).unwrap();
        assert_eq!(out.len(), 3);
        assert!(is_alnum(&out));
    }
    for _ in 0..20 {
        let out = gen.generate(&env).unwrap();
        assert_eq!(out.len(), 3);
        assert!(is_alnum(&out));
    }
}

#[test]
fn constants_are_cut_at_the_capacity() {
    let env = evaluate(r#"DEFINE g "HELLO" ":" "WORLD" GENERATE g WITH OUT_MAX = 8"#);
    let out = Gen::default().generate(&env).unwrap();
    assert_eq!(out, b"HELLO:WO".to_vec());
    let env = evaluate(r#"DEFINE g "HELLO" ":" "WORLD" GENERATE g WITH OUT_MAX = 6"#);
    assert_eq!(Gen::default().generate(&env).unwrap(), b"HELLO:".to_vec());
    let env = evaluate(r#"DEFINE g "HELLO" ":" "WORLD" GENERATE g WITH OUT_MAX = 0"#);
    assert_eq!(Gen::default().generate(&env).unwrap(), Vec::<u8>::new());
    let env = evaluate(r#"DEFINE g "HELLO" ":" "WORLD" GENERATE g"#);
    assert_eq!(Gen::default().generate(&env).unwrap(), b"HELLO:WORLD".to_vec());
}

#[test]
fn constants_longer_than_the_capacity_fill_it() {
    let env = evaluate(
        r#"DEFINE g "ab" string AS s -> LEN(0 3), "cdefgh" bytes u8 "ijkl" GENERATE g WITH OUT_MAX = 9"#,
    );
    let gen = Gen::default();
    for seed in 0..200 {
        let out = gen.generate_with(&env, &mut Dice::seeded(seed)).unwrap();
        assert_eq!(out.len(), 9);
        assert_eq!(&out[0..2], b"ab");
    }
}

#[test]
fn strings_and_bytes_keep_their_bounds() {
    let gen = Gen::new(vec![Box::new(Grumpy)]);
    let mut seen = std::collections::BTreeSet::new();
    for seed in 0..300 {
        let mut dice = Dice::seeded(seed);
        let mut bytes = b"abc".to_vec();
        let def = AsciiStringDef { length_min: 2, length_max: 6 };
        let cf = gen.generate_ascii_string(&def, &mut bytes, 7, &mut dice);
        let emitted = bytes.len() - 3;
        assert!(emitted >= 2 && emitted <= 4);
        assert_eq!(&bytes[0..3], b"abc");
        assert!(is_alnum(&bytes[3..]));
        assert_eq!(cf.is_break(), bytes.len() == 7);
        seen.insert(emitted);

        let mut bytes = vec![9u8; 5];
        let def = BytesDef { length_min: 0, length_max: 2 };
        let cf = gen.generate_bytes(&def, &mut bytes, 100, &mut dice);
        assert!(bytes.len() - 5 <= 2);
        assert_eq!(&bytes[0..5], &[9u8; 5]);
        assert_eq!(cf, ControlFlow::Continue(()));

        let mut bytes = vec![1u8, 2, 3];
        let def = BytesDef { length_min: 4, length_max: 9 };
        let cf = gen.generate_bytes(&def, &mut bytes, 5, &mut dice);
        assert_eq!(bytes.len(), 5);
        assert_eq!(cf, ControlFlow::Break(()));

        let mut bytes = vec![1u8, 2, 3];
        let def = AsciiStringDef { length_min: 1, length_max: 1 };
        let cf = gen.generate_ascii_string(&def, &mut bytes, 3, &mut dice);
        assert_eq!(bytes, vec![1u8, 2, 3]);
        assert_eq!(cf, ControlFlow::Break(()));
    }
    assert_eq!(seen.into_iter().collect::<Vec<usize>>(), vec![2, 3, 4]);
}

#[test]
fn constant_string_emission() {
    let gen = Gen::default();
    let mut bytes = Vec::new();
    let cf = gen.generate_const_string(&"héllo".to_owned(), &mut bytes, 10);
    assert_eq!(bytes, "héllo".as_bytes().to_vec());
    assert_eq!(cf, ControlFlow::Continue(()));
    let cf = gen.generate_const_string(&"world".to_owned(), &mut bytes, 10);
    assert_eq!(bytes, "hélloworl".as_bytes().to_vec());
    assert_eq!(cf, ControlFlow::Break(()));
    let cf = gen.generate_const_string(&"!".to_owned(), &mut bytes, 10);
    assert_eq!(bytes.len(), 10);
    assert_eq!(cf, ControlFlow::Break(()));
    let mut bytes = Vec::new();
    let cf = gen.generate_const_string(&"".to_owned(), &mut bytes, 10);
    assert_eq!(bytes.len(), 0);
    assert_eq!(cf, ControlFlow::Continue(()));
    let cf = gen.generate_const_string(&"0123456789".to_owned(), &mut bytes, 10);
    assert_eq!(bytes, b"0123456789".to_vec());
    assert_eq!(cf, ControlFlow::Break(()));
}

#[test]
fn an_empty_constant_does_not_stop_the_output() {
    let env = env_with(vec![constant("ab"), constant(""), constant("cd")], 10);
    assert_eq!(Gen::default().generate(&env).unwrap(), b"abcd".to_vec());
}

#[test]
fn text_numbers_lie_in_their_range() {
    let env = evaluate("DEFINE g i32 AS n -> RANGE(-5 12), GENERATE g WITH OUT_MAX = 16");
    let gen = Gen::default();
    let mut seen = std::collections::BTreeSet::new();
    for seed in 0..400 {
        let out = gen.generate_with(&env, &mut Dice::seeded(seed)).unwrap();
        let text = String::from_utf8(out).unwrap();
        let value: i64 = text.parse().unwrap();
        assert!(value >= -5 && value <= 12);
        assert_eq!(value.to_string(), text);
        seen.insert(value);
    }
    assert_eq!(seen.len(), 18);
}

#[test]
fn text_numbers_are_cut_at_the_capacity() {
    let def = TextNumberDef {
        format: NumberFormat::Int32,
        min_value: 123456,
        max_value: 123456,
        display: None,
    };
    let gen = Gen::default();
    let mut dice = Dice::seeded(1);
    let mut bytes = b"xy".to_vec();
    let cf = gen.generate_text_number(&def, &mut bytes, 5, &mut dice);
    assert_eq!(bytes, b"xy123".to_vec());
    assert_eq!(cf, ControlFlow::Break(()));
    let mut bytes = b"xy".to_vec();
    let cf = gen.generate_text_number(&def, &mut bytes, 50, &mut dice);
    assert_eq!(bytes, b"xy123456".to_vec());
    assert_eq!(cf, ControlFlow::Continue(()));
    let env = env_with(vec![FieldDefinition::TextNumber(def), constant("|")], 4096);
    assert_eq!(Gen::default().generate(&env).unwrap(), b"123456|".to_vec());
}

#[test]
fn byte_numbers_take_the_width_of_their_format() {
    let env = evaluate("DEFINE g le_u16 be_i32 le_i64 GENERATE g");
    let gen = Gen::default();
    for seed in 0..50 {
        assert_eq!(gen.generate_with(&env, &mut Dice::seeded(seed)).unwrap().len(), 14);
    }
    let def = ByteNumberDef {
        format: NumberFormat::Uint32,
        endianess: ByteOrder::BigEndian,
        min_value: 305419896,
        max_value: 305419896,
    };
    let mut dice = Dice::seeded(3);
    let mut bytes = Vec::new();
    let cf = gen.generate_byte_number(&def, &mut bytes, 8, &mut dice);
    assert_eq!(bytes, vec![0x12, 0x34, 0x56, 0x78]);
    assert_eq!(cf, ControlFlow::Continue(()));
    let cf = gen.generate_byte_number(&def, &mut bytes, 6, &mut dice);
    assert_eq!(bytes, vec![0x12, 0x34, 0x56, 0x78, 0x12, 0x34]);
    assert_eq!(cf, ControlFlow::Break(()));
}

#[test]
fn numbers_as_text() {
    assert_eq!(render_text(0, None), b"0".to_vec());
    assert_eq!(render_text(7, None), b"7".to_vec());
    assert_eq!(render_text(42069, None), b"42069".to_vec());
    assert_eq!(render_text(-42, Some(NumberDisplayFormat::Decimal)), b"-42".to_vec());
    assert_eq!(render_text(255, Some(NumberDisplayFormat::Hex)), b"ff".to_vec());
    assert_eq!(render_text(-4096, Some(NumberDisplayFormat::Hex)), b"-1000".to_vec());
    assert_eq!(render_text(5, Some(NumberDisplayFormat::Binary)), b"101".to_vec());
    assert_eq!(render_text(0, Some(NumberDisplayFormat::Binary)), b"0".to_vec());
    assert_eq!(render_text(64, Some(NumberDisplayFormat::Octal)), b"100".to_vec());
    assert_eq!(render_text(i64::MIN as i128, None), b"-9223372036854775808".to_vec());
    assert_eq!(render_text(u64::MAX as i128, None), b"18446744073709551615".to_vec());
    assert_eq!(render_text(i128::MIN, None), i128::MIN.to_string().into_bytes());
    assert_eq!(render_text(i128::MAX, None), i128::MAX.to_string().into_bytes());
}

#[test]
fn numbers_as_bytes() {
    let le = ByteOrder::LittleEndian;
    let be = ByteOrder::BigEndian;
    assert_eq!(render_bytes(305419896, NumberFormat::Uint32, be), vec![0x12, 0x34, 0x56, 0x78]);
    assert_eq!(render_bytes(305419896, NumberFormat::Uint32, le), vec![0x78, 0x56, 0x34, 0x12]);
    assert_eq!(render_bytes(-1, NumberFormat::Int16, le), vec![0xff, 0xff]);
    assert_eq!(render_bytes(-2, NumberFormat::Int32, le), vec![0xfe, 0xff, 0xff, 0xff]);
    assert_eq!(render_bytes(-2, NumberFormat::Int32, be), vec![0xff, 0xff, 0xff, 0xfe]);
    assert_eq!(render_bytes(-128, NumberFormat::Int8, be), vec![0x80]);
    assert_eq!(render_bytes(0, NumberFormat::Uint64, le), vec![0; 8]);
    assert_eq!(render_bytes(i64::MIN as i128, NumberFormat::Int64, be), i64::MIN.to_be_bytes().to_vec());
    assert_eq!(render_bytes(u64::MAX as i128, NumberFormat::Uint64, le), vec![0xff; 8]);
    assert_eq!(render_bytes(0x1234, NumberFormat::Uint8, le), vec![0x34]);
    assert_eq!(render_bytes(-12345, NumberFormat::Int64, le), (-12345i64).to_le_bytes().to_vec());
    assert_eq!(reversed(&vec![1, 2, 3]), vec![3, 2, 1]);
}

#[test]
fn appending_what_fits() {
    let mut bytes = vec![1u8];
    assert_eq!(append_truncated(&mut bytes, 4, &vec![2, 3]), ControlFlow::Continue(()));
    assert_eq!(bytes, vec![1, 2, 3]);
    assert_eq!(append_truncated(&mut bytes, 4, &vec![4, 5]), ControlFlow::Break(()));
    assert_eq!(bytes, vec![1, 2, 3, 4]);
    assert_eq!(append_truncated(&mut bytes, 4, &vec![6]), ControlFlow::Break(()));
    assert_eq!(bytes, vec![1, 2, 3, 4]);
    assert_eq!(append_truncated(&mut bytes, 5, &Vec::new()), ControlFlow::Continue(()));
}

#[test]
fn environments_that_lack_something_are_refused() {
    let gen = Gen::default();
    assert_eq!(gen.generate(&ProgramEnv::default()), Err(BajzelError::NotConstructedProperly));
    let mut env = ProgramEnv::default();
    env.create_group("a".into());
    assert_eq!(gen.generate(&env), Err(BajzelError::NotConstructedProperly));
    env.create_generator("b".into()).unwrap();
    assert_eq!(gen.generate(&env), Err(BajzelError::NotConstructedProperly));
    env.create_group("b".into());
    assert_eq!(gen.generate(&env), Ok(Vec::new()));
}

#[test]
fn bounds_out_of_order_are_refused() {
    let env = evaluate("DEFINE g i8 AS n -> RANGE(5 1), GENERATE g");
    assert_eq!(Gen::default().generate(&env), Err(BajzelError::NotConstructedProperly));
    let env = env_with(
        vec![constant("x"), FieldDefinition::Bytes(BytesDef { length_min: 3, length_max: 2 })],
        10,
    );
    assert_eq!(Gen::default().generate(&env), Err(BajzelError::NotConstructedProperly));
    assert!(is_group_sound(env.get_group("g").unwrap()) == false);
    assert!(is_sound(&constant("x")));
    assert!(is_sound(&FieldDefinition::AsciiString(AsciiStringDef::new())));
    assert!(!is_sound(&FieldDefinition::AsciiString(AsciiStringDef {
        length_min: 2,
        length_max: 1
    })));
    assert!(!is_sound(&FieldDefinition::ByteNumber(ByteNumberDef {
        format: NumberFormat::Int8,
        endianess: ByteOrder::BigEndian,
        min_value: 1,
        max_value: 0
    })));
}

#[test]
fn the_same_seed_gives_the_same_output() {
    let env = evaluate("DEFINE g string bytes i64 le_u32 GENERATE g WITH OUT_MAX = 64");
    let gen = Gen::default();
    let first = gen.generate_with(&env, &mut Dice::seeded(7)).unwrap();
    let second = gen.generate_with(&env, &mut Dice::seeded(7)).unwrap();
    assert_eq!(first, second);
    assert!(first.len() <= 64);
}

#[test]
fn dice_roll_within_their_bounds() {
    let mut dice = Dice::seeded(11);
    let mut numbers = std::collections::BTreeSet::new();
    let mut lengths = std::collections::BTreeSet::new();
    let mut letters = std::collections::BTreeSet::new();
    let mut bytes = std::collections::BTreeSet::new();
    for _ in 0..2000 {
        let n = dice.number(-3, 3);
        assert!(n >= -3 && n <= 3);
        numbers.insert(n);
        let l = dice.length(2, 5);
        assert!(l >= 2 && l <= 5);
        lengths.insert(l);
        let c = dice.alphanumeric();
        assert!(c.is_ascii_alphanumeric());
        letters.insert(c);
        bytes.insert(dice.byte());
    }
    assert_eq!(numbers.len(), 7);
    assert_eq!(lengths.len(), 4);
    assert_eq!(letters.len(), 62);
    assert!(bytes.len() > 200);
    assert_eq!(dice.number(9, 9), 9);
    assert_eq!(dice.number(i128::MIN, i128::MIN), i128::MIN);
    assert_eq!(dice.length(0, 0), 0);
    let mut fresh = Dice::new();
    let n = fresh.number(0, 1);
    assert!(n == 0 || n == 1);
}

#[test]
fn example_output_has_the_declared_shape() {
    let env = evaluate(
        r#"
        DEFINE string_cmd
            string AS cmd -> LEN(4),
            " "
            string AS sub_cmd -> LEN(1 10),
            " "
            i32 AS param -> RANGE(0 5),
        GENERATE string_cmd WITH
            OUT_MIN = 5
            OUT_MAX = 32
            TERM = LF
    "#,
    );
    let gen = Gen::default();
    for seed in 0..200 {
        let out = gen.generate_with(&env, &mut Dice::seeded(seed)).unwrap();
        let text = String::from_utf8(out).unwrap();
        let parts: Vec<&str> = text.split(' ').collect();
        assert_eq!(parts.len(), 3);
        assert_eq!(parts[0].len(), 4);
        assert!(is_alnum(parts[0].as_bytes()));
        assert!(parts[1].len() >= 1 && parts[1].len() <= 10);
        assert!(is_alnum(parts[1].as_bytes()));
        let param: i32 = parts[2].parse().unwrap();
        assert!(param >= 0 && param <= 5);
    }
}
