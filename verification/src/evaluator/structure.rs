//! Groups, fields and the definitions of the five kinds of field.

use crate::error::{about, syntax, syntax_err, syntax_err_about, BajzelError, BajzelErrorView};
use crate::parser::{Expr, ExprView, Literal, LiteralView};
use crate::text::same_text;
use vstd::prelude::*;
use vstd::string::*;

verus! {

/// Width and signedness of a number.
#[derive(Clone, Copy, Debug, PartialEq, Eq)]
pub enum NumberFormat {
    Int8,
    Int16,
    Int32,
    Int64,
    Uint8,
    Uint16,
    Uint32,
    Uint64,
}

/// The base in which a text number is written.
#[derive(Clone, Copy, Debug, PartialEq, Eq)]
pub enum NumberDisplayFormat {
    Binary,
    Octal,
    Decimal,
    Hex,
}

#[derive(Clone, Copy, Debug, PartialEq, Eq)]
pub enum ByteOrder {
    /// The most significant byte comes first.
    BigEndian,
    /// The least significant byte comes first.
    LittleEndian,
}

impl NumberFormat {
    /// The least number of the format.
    pub open spec fn least(self) -> int {
        match self {
            NumberFormat::Int8 => i8::MIN as int,
            NumberFormat::Int16 => i16::MIN as int,
            NumberFormat::Int32 => i32::MIN as int,
            NumberFormat::Int64 => i64::MIN as int,
            NumberFormat::Uint8 => 0,
            NumberFormat::Uint16 => 0,
            NumberFormat::Uint32 => 0,
            NumberFormat::Uint64 => 0,
        }
    }

    /// The greatest number of the format.
    pub open spec fn greatest(self) -> int {
        match self {
            NumberFormat::Int8 => i8::MAX as int,
            NumberFormat::Int16 => i16::MAX as int,
            NumberFormat::Int32 => i32::MAX as int,
            NumberFormat::Int64 => i64::MAX as int,
            NumberFormat::Uint8 => u8::MAX as int,
            NumberFormat::Uint16 => u16::MAX as int,
            NumberFormat::Uint32 => u32::MAX as int,
            NumberFormat::Uint64 => u64::MAX as int,
        }
    }

    /// The number of bytes that a number of the format takes.
    pub open spec fn width(self) -> nat {
        match self {
            NumberFormat::Int8 | NumberFormat::Uint8 => 1,
            NumberFormat::Int16 | NumberFormat::Uint16 => 2,
            NumberFormat::Int32 | NumberFormat::Uint32 => 4,
            NumberFormat::Int64 | NumberFormat::Uint64 => 8,
        }
    }

    pub fn min_as_i128(&self) -> (r: i128)
        ensures
            r == self.least(),
    {
        match self {
            NumberFormat::Int8 => -128,
            NumberFormat::Int16 => -32768,
            NumberFormat::Int32 => -2147483648,
            NumberFormat::Int64 => -9223372036854775808,
            NumberFormat::Uint8 => 0,
            NumberFormat::Uint16 => 0,
            NumberFormat::Uint32 => 0,
            NumberFormat::Uint64 => 0,
        }
    }

    pub fn max_as_i128(&self) -> (r: i128)
        ensures
            r == self.greatest(),
    {
        match self {
            NumberFormat::Int8 => 127,
            NumberFormat::Int16 => 32767,
            NumberFormat::Int32 => 2147483647,
            NumberFormat::Int64 => 9223372036854775807,
            NumberFormat::Uint8 => 255,
            NumberFormat::Uint16 => 65535,
            NumberFormat::Uint32 => 4294967295,
            NumberFormat::Uint64 => 18446744073709551615,
        }
    }

    pub fn byte_width(&self) -> (r: usize)
        ensures
            r == self.width(),
    {
        match self {
            NumberFormat::Int8 | NumberFormat::Uint8 => 1,
            NumberFormat::Int16 | NumberFormat::Uint16 => 2,
            NumberFormat::Int32 | NumberFormat::Uint32 => 4,
            NumberFormat::Int64 | NumberFormat::Uint64 => 8,
        }
    }
}

/// The format that the name of a text number stands for.
pub open spec fn text_number_format(name: Seq<char>) -> Option<NumberFormat> {
    if name == "i8"@ {
        Some(NumberFormat::Int8)
    } else if name == "i16"@ {
        Some(NumberFormat::Int16)
    } else if name == "i32"@ {
        Some(NumberFormat::Int32)
    } else if name == "i64"@ {
        Some(NumberFormat::Int64)
    } else if name == "u8"@ {
        Some(NumberFormat::Uint8)
    } else if name == "u16"@ {
        Some(NumberFormat::Uint16)
    } else if name == "u32"@ {
        Some(NumberFormat::Uint32)
    } else if name == "u64"@ {
        Some(NumberFormat::Uint64)
    } else {
        None
    }
}

/// The format and byte order that the name of a byte number stands for.
pub open spec fn byte_number_format(name: Seq<char>) -> Option<(NumberFormat, ByteOrder)> {
    if name == "le_u16"@ {
        Some((NumberFormat::Uint16, ByteOrder::LittleEndian))
    } else if name == "le_u32"@ {
        Some((NumberFormat::Uint32, ByteOrder::LittleEndian))
    } else if name == "le_u64"@ {
        Some((NumberFormat::Uint64, ByteOrder::LittleEndian))
    } else if name == "le_i16"@ {
        Some((NumberFormat::Int16, ByteOrder::LittleEndian))
    } else if name == "le_i32"@ {
        Some((NumberFormat::Int32, ByteOrder::LittleEndian))
    } else if name == "le_i64"@ {
        Some((NumberFormat::Int64, ByteOrder::LittleEndian))
    } else if name == "be_u16"@ {
        Some((NumberFormat::Uint16, ByteOrder::BigEndian))
    } else if name == "be_u32"@ {
        Some((NumberFormat::Uint32, ByteOrder::BigEndian))
    } else if name == "be_u64"@ {
        Some((NumberFormat::Uint64, ByteOrder::BigEndian))
    } else if name == "be_i16"@ {
        Some((NumberFormat::Int16, ByteOrder::BigEndian))
    } else if name == "be_i32"@ {
        Some((NumberFormat::Int32, ByteOrder::BigEndian))
    } else if name == "be_i64"@ {
        Some((NumberFormat::Int64, ByteOrder::BigEndian))
    } else {
        None
    }
}

/// The integer that an expression stands for, where it is an integer
/// literal.
pub open spec fn integer_of(e: ExprView) -> Result<i64, BajzelErrorView> {
    match e {
        ExprView::LiteralExpr(LiteralView::IntegerLiteral(v)) => Ok(v),
        ExprView::LiteralExpr(_) => Err(
            BajzelErrorView::Expr("eval_expr_to_i64: integer literal expected"@),
        ),
        ExprView::Group(_) => Err(
            BajzelErrorView::Expr("eval_expr_to_i64: group expr not expected"@),
        ),
    }
}

/// The two integers of a group of two integer literals; `None` where the
/// expression is no group of two.
pub open spec fn integer_pair_of(e: ExprView) -> Option<Result<(i64, i64), BajzelErrorView>> {
    match e {
        ExprView::Group(v) => if v.len() == 2 {
            Some(
                match integer_of(v[0]) {
                    Err(e) => Err(e),
                    Ok(a) => match integer_of(v[1]) {
                        Err(e) => Err(e),
                        Ok(b) => Ok((a, b)),
                    },
                },
            )
        } else {
            None
        },
        _ => None,
    }
}

/// Extracts the integer of an integer literal.
pub fn eval_expr_to_i64(expr: &Expr) -> (r: Result<i64, BajzelError>)
    ensures
        match integer_of(expr@) {
            Ok(v) => r == Ok::<i64, BajzelError>(v),
            Err(e) => r matches Err(x) && x@ == e,
        },
{
    match expr {
        Expr::LiteralExpr(literal) => match literal {
            Literal::IntegerLiteral(value) => Ok(*value),
            _ => Err(BajzelError::Expr("eval_expr_to_i64: integer literal expected".to_owned())),
        },
        Expr::Group(_) => Err(
            BajzelError::Expr("eval_expr_to_i64: group expr not expected".to_owned()),
        ),
    }
}

/// Extracts the two integers of a group of two integer literals.
pub fn eval_expr_to_pair(expr: &Expr) -> (r: Option<Result<(i64, i64), BajzelError>>)
    ensures
        match integer_pair_of(expr@) {
            None => r is None,
            Some(Ok(p)) => r == Some(Ok::<(i64, i64), BajzelError>(p)),
            Some(Err(e)) => r matches Some(Err(x)) && x@ == e,
        },
{
    match expr {
        Expr::Group(v) => {
            if v.len() == 2 {
                let first = eval_expr_to_i64(&v[0]);
                match first {
                    Err(e) => Some(Err(e)),
                    Ok(a) => {
                        let second = eval_expr_to_i64(&v[1]);
                        match second {
                            Err(e) => Some(Err(e)),
                            Ok(b) => Some(Ok((a, b))),
                        }
                    },
                }
            } else {
                None
            }
        },
        _ => None,
    }
}

/// A number written as text, such as `42069`.
#[derive(Clone, Copy, Debug, PartialEq, Eq)]
pub struct TextNumberDef {
    pub format: NumberFormat,
    pub min_value: i128,
    pub max_value: i128,
    pub display: Option<NumberDisplayFormat>,
}

/// A number written as the bytes of its format, in a byte order.
#[derive(Clone, Copy, Debug, PartialEq, Eq)]
pub struct ByteNumberDef {
    pub format: NumberFormat,
    pub endianess: ByteOrder,
    pub min_value: i128,
    pub max_value: i128,
}

/// A string of random letters and digits.
#[derive(Clone, Copy, Debug, PartialEq, Eq)]
pub struct AsciiStringDef {
    pub length_min: usize,
    pub length_max: usize,
}

/// A sequence of random bytes.
#[derive(Clone, Copy, Debug, PartialEq, Eq)]
pub struct BytesDef {
    pub length_min: usize,
    pub length_max: usize,
}

impl ByteNumberDef {
    /// The definition with the whole range of the format.
    pub open spec fn natural(format: NumberFormat, endianess: ByteOrder) -> ByteNumberDef {
        ByteNumberDef {
            format,
            endianess,
            min_value: format.least() as i128,
            max_value: format.greatest() as i128,
        }
    }

    pub fn new(format: NumberFormat, endianess: ByteOrder) -> (r: Self)
        ensures
            r == Self::natural(format, endianess),
    {
        let min = format.min_as_i128();
        let max = format.max_as_i128();
        Self { format, endianess, min_value: min, max_value: max }
    }

    pub fn from_str(format: &str) -> (r: Result<Self, BajzelError>)
        ensures
            match byte_number_format(format@) {
                Some((f, o)) => r == Ok::<Self, BajzelError>(Self::natural(f, o)),
                None => r matches Err(e) && e@ == BajzelErrorView::Conversion(format@),
            },
    {
        if same_text(format, "le_u16") {
            Ok(Self::new(NumberFormat::Uint16, ByteOrder::LittleEndian))
        } else if same_text(format, "le_u32") {
            Ok(Self::new(NumberFormat::Uint32, ByteOrder::LittleEndian))
        } else if same_text(format, "le_u64") {
            Ok(Self::new(NumberFormat::Uint64, ByteOrder::LittleEndian))
        } else if same_text(format, "le_i16") {
            Ok(Self::new(NumberFormat::Int16, ByteOrder::LittleEndian))
        } else if same_text(format, "le_i32") {
            Ok(Self::new(NumberFormat::Int32, ByteOrder::LittleEndian))
        } else if same_text(format, "le_i64") {
            Ok(Self::new(NumberFormat::Int64, ByteOrder::LittleEndian))
        } else if same_text(format, "be_u16") {
            Ok(Self::new(NumberFormat::Uint16, ByteOrder::BigEndian))
        } else if same_text(format, "be_u32") {
            Ok(Self::new(NumberFormat::Uint32, ByteOrder::BigEndian))
        } else if same_text(format, "be_u64") {
            Ok(Self::new(NumberFormat::Uint64, ByteOrder::BigEndian))
        } else if same_text(format, "be_i16") {
            Ok(Self::new(NumberFormat::Int16, ByteOrder::BigEndian))
        } else if same_text(format, "be_i32") {
            Ok(Self::new(NumberFormat::Int32, ByteOrder::BigEndian))
        } else if same_text(format, "be_i64") {
            Ok(Self::new(NumberFormat::Int64, ByteOrder::BigEndian))
        } else {
            Err(BajzelError::Conversion(format.to_owned()))
        }
    }

    /// Byte numbers take no attribute.
    pub fn update(&mut self, attr_name: &str, expr: Expr) -> (r: Result<(), BajzelError>)
        ensures
            *final(self) == *old(self),
            r matches Err(e) && e@ == syntax(
                about("byte number attributes are not implemented"@, attr_name@),
            ),
    {
        syntax_err_about("byte number attributes are not implemented", attr_name)
    }
}

impl TextNumberDef {
    /// The definition with the whole range of the format, written in base
    /// ten.
    pub open spec fn natural(format: NumberFormat) -> TextNumberDef {
        TextNumberDef {
            format,
            min_value: format.least() as i128,
            max_value: format.greatest() as i128,
            display: None,
        }
    }

    /// What an update of the attribute `attr` with `e` makes of the
    /// definition.
    pub open spec fn updated(self, attr: Seq<char>, e: ExprView) -> Result<
        TextNumberDef,
        BajzelErrorView,
    > {
        if attr == "RANGE"@ {
            match integer_pair_of(e) {
                Some(Ok((min, max))) => Ok(
                    TextNumberDef { min_value: min as i128, max_value: max as i128, ..self },
                ),
                Some(Err(e)) => Err(e),
                None => Err(syntax("RANGE(min max): expects exactly 2 values"@)),
            }
        } else {
            Err(syntax(about("unsupported text number attribute"@, attr)))
        }
    }

    pub fn new(format: NumberFormat) -> (r: Self)
        ensures
            r == Self::natural(format),
    {
        let min = format.min_as_i128();
        let max = format.max_as_i128();
        Self { format, min_value: min, max_value: max, display: None }
    }

    pub fn from_str(format: &str) -> (r: Result<Self, BajzelError>)
        ensures
            match text_number_format(format@) {
                Some(f) => r == Ok::<Self, BajzelError>(Self::natural(f)),
                None => r matches Err(e) && e@ == BajzelErrorView::Conversion(format@),
            },
    {
        if same_text(format, "i8") {
            Ok(TextNumberDef::new(NumberFormat::Int8))
        } else if same_text(format, "i16") {
            Ok(TextNumberDef::new(NumberFormat::Int16))
        } else if same_text(format, "i32") {
            Ok(TextNumberDef::new(NumberFormat::Int32))
        } else if same_text(format, "i64") {
            Ok(TextNumberDef::new(NumberFormat::Int64))
        } else if same_text(format, "u8") {
            Ok(TextNumberDef::new(NumberFormat::Uint8))
        } else if same_text(format, "u16") {
            Ok(TextNumberDef::new(NumberFormat::Uint16))
        } else if same_text(format, "u32") {
            Ok(TextNumberDef::new(NumberFormat::Uint32))
        } else if same_text(format, "u64") {
            Ok(TextNumberDef::new(NumberFormat::Uint64))
        } else {
            Err(BajzelError::Conversion(format.to_owned()))
        }
    }

    /// Updates the attribute `attr_name`; the one attribute of a text
    /// number is `RANGE(min max)`.
    pub fn update(&mut self, attr_name: &str, expr: Expr) -> (r: Result<(), BajzelError>)
        ensures
            match old(self).updated(attr_name@, expr@) {
                Ok(d) => r is Ok && *final(self) == d,
                Err(e) => r matches Err(x) && x@ == e && *final(self) == *old(self),
            },
    {
        if same_text(attr_name, "RANGE") {
            self.set_range(expr)
        } else {
            syntax_err_about("unsupported text number attribute", attr_name)
        }
    }

    fn set_range(&mut self, expr: Expr) -> (r: Result<(), BajzelError>)
        ensures
            match old(self).updated("RANGE"@, expr@) {
                Ok(d) => r is Ok && *final(self) == d,
                Err(e) => r matches Err(x) && x@ == e && *final(self) == *old(self),
            },
    {
        match eval_expr_to_pair(&expr) {
            None => syntax_err("RANGE(min max): expects exactly 2 values"),
            Some(Err(e)) => Err(e),
            Some(Ok((min, max))) => {
                self.min_value = min as i128;
                self.max_value = max as i128;
                Ok(())
            },
        }
    }
}

/// What `LEN(..)` with the argument `e` asks for: the least and the
/// greatest length.
pub open spec fn length_bounds_of(e: ExprView) -> Result<(usize, usize), BajzelErrorView> {
    match e {
        ExprView::LiteralExpr(LiteralView::IntegerLiteral(value)) => if value < 0 {
            Err(syntax("LEN(value): value < 0 is not allowed"@))
        } else {
            Ok((value as usize, value as usize))
        },
        ExprView::LiteralExpr(_) => Err(syntax("LEN(value): expects an integer"@)),
        ExprView::Group(_) => match integer_pair_of(e) {
            None => Err(syntax("LEN(min max): expects 1 or 2 values"@)),
            Some(Err(e)) => Err(e),
            Some(Ok((min, max))) => if min > max {
                Err(syntax("LEN(min max): min > max is not allowed"@))
            } else if min < 0 {
                Err(syntax("LEN(min max): min < 0 is not allowed"@))
            } else {
                Ok((min as usize, max as usize))
            },
        },
    }
}

/// Reads the argument of `LEN(..)`.
pub fn eval_length_bounds(expr: &Expr) -> (r: Result<(usize, usize), BajzelError>)
    ensures
        match length_bounds_of(expr@) {
            Ok(p) => r == Ok::<(usize, usize), BajzelError>(p),
            Err(e) => r matches Err(x) && x@ == e,
        },
{
    match expr {
        Expr::LiteralExpr(literal) => match literal {
            Literal::IntegerLiteral(value) => {
                if *value < 0 {
                    return syntax_err("LEN(value): value < 0 is not allowed");
                }
                let n = #[verifier::truncate]
                (*value as usize);
                Ok((n, n))
            },
            _ => syntax_err("LEN(value): expects an integer"),
        },
        Expr::Group(_) => match eval_expr_to_pair(expr) {
            None => syntax_err("LEN(min max): expects 1 or 2 values"),
            Some(Err(e)) => Err(e),
            Some(Ok((min, max))) => {
                if min > max {
                    return syntax_err("LEN(min max): min > max is not allowed");
                }
                if min < 0 {
                    return syntax_err("LEN(min max): min < 0 is not allowed");
                }
                let lo = #[verifier::truncate]
                (min as usize);
                let hi = #[verifier::truncate]
                (max as usize);
                Ok((lo, hi))
            },
        },
    }
}

impl AsciiStringDef {
    /// What an update of the attribute `attr` with `e` makes of the
    /// definition.
    pub open spec fn updated(self, attr: Seq<char>, e: ExprView) -> Result<
        AsciiStringDef,
        BajzelErrorView,
    > {
        if attr == "LEN"@ {
            match length_bounds_of(e) {
                Ok((min, max)) => Ok(AsciiStringDef { length_min: min, length_max: max }),
                Err(e) => Err(e),
            }
        } else {
            Err(syntax(about("unsupported string attribute name"@, attr)))
        }
    }

    pub fn new() -> (r: Self)
        ensures
            r == (AsciiStringDef { length_min: 0, length_max: 4096 }),
    {
        Self { length_min: 0, length_max: 4096 }
    }

    /// Updates the attribute `attr_name`; the one attribute of a string is
    /// `LEN(value)` or `LEN(min max)`.
    pub fn update(&mut self, attr_name: &str, expr: Expr) -> (r: Result<(), BajzelError>)
        ensures
            match old(self).updated(attr_name@, expr@) {
                Ok(d) => r is Ok && *final(self) == d,
                Err(e) => r matches Err(x) && x@ == e && *final(self) == *old(self),
            },
    {
        if same_text(attr_name, "LEN") {
            self.set_len(expr)
        } else {
            syntax_err_about("unsupported string attribute name", attr_name)
        }
    }

    /// Sets the least and the greatest number of characters: `LEN(value)`
    /// asks for exactly `value` characters, `LEN(min max)` for a number
    /// from `min` to `max`.
    fn set_len(&mut self, expr: Expr) -> (r: Result<(), BajzelError>)
        ensures
            match old(self).updated("LEN"@, expr@) {
                Ok(d) => r is Ok && *final(self) == d,
                Err(e) => r matches Err(x) && x@ == e && *final(self) == *old(self),
            },
    {
        match eval_length_bounds(&expr) {
            Ok((min, max)) => {
                self.length_min = min;
                self.length_max = max;
                Ok(())
            },
            Err(e) => Err(e),
        }
    }
}

impl Default for AsciiStringDef {
    fn default() -> (r: Self)
        ensures
            r == (AsciiStringDef { length_min: 0, length_max: 4096 }),
    {
        Self::new()
    }
}

impl BytesDef {
    pub fn new() -> (r: Self)
        ensures
            r == (BytesDef { length_min: 0, length_max: 4096 }),
    {
        Self { length_min: 0, length_max: 4096 }
    }

    /// Byte sequences take no attribute.
    pub fn update(&mut self, attr_name: &str, expr: Expr) -> (r: Result<(), BajzelError>)
        ensures
            *final(self) == *old(self),
            r matches Err(e) && e@ == syntax(about("unsupported bytes attribute name"@, attr_name@)),
    {
        syntax_err_about("unsupported bytes attribute name", attr_name)
    }
}

impl Default for BytesDef {
    fn default() -> (r: Self)
        ensures
            r == (BytesDef { length_min: 0, length_max: 4096 }),
    {
        Self::new()
    }
}

/// What a field emits.
#[derive(Debug, PartialEq, Eq)]
pub enum FieldDefinition {
    /// A constant string, such as `"BM"`.
    ConstString(String),
    /// A random number written as text.
    TextNumber(TextNumberDef),
    /// A random string of letters and digits.
    AsciiString(AsciiStringDef),
    /// A random number written as bytes.
    ByteNumber(ByteNumberDef),
    /// A random sequence of bytes.
    Bytes(BytesDef),
}

pub enum FieldDefinitionView {
    ConstString(Seq<char>),
    TextNumber(TextNumberDef),
    AsciiString(AsciiStringDef),
    ByteNumber(ByteNumberDef),
    Bytes(BytesDef),
}

impl View for FieldDefinition {
    type V = FieldDefinitionView;

    open spec fn view(&self) -> FieldDefinitionView {
        match self {
            FieldDefinition::ConstString(s) => FieldDefinitionView::ConstString(s@),
            FieldDefinition::TextNumber(d) => FieldDefinitionView::TextNumber(*d),
            FieldDefinition::AsciiString(d) => FieldDefinitionView::AsciiString(*d),
            FieldDefinition::ByteNumber(d) => FieldDefinitionView::ByteNumber(*d),
            FieldDefinition::Bytes(d) => FieldDefinitionView::Bytes(*d),
        }
    }
}

impl FieldDefinitionView {
    /// What an update of the attribute `attr` with `e` makes of the
    /// definition; each kind of field has its own attributes.
    pub open spec fn updated(self, attr: Seq<char>, e: ExprView) -> Result<
        FieldDefinitionView,
        BajzelErrorView,
    > {
        match self {
            FieldDefinitionView::ConstString(_) => Err(
                syntax("'string' type does not have any attributes"@),
            ),
            FieldDefinitionView::TextNumber(d) => match d.updated(attr, e) {
                Ok(n) => Ok(FieldDefinitionView::TextNumber(n)),
                Err(e) => Err(e),
            },
            FieldDefinitionView::AsciiString(d) => match d.updated(attr, e) {
                Ok(n) => Ok(FieldDefinitionView::AsciiString(n)),
                Err(e) => Err(e),
            },
            FieldDefinitionView::ByteNumber(_) => Err(
                syntax(about("byte number attributes are not implemented"@, attr)),
            ),
            FieldDefinitionView::Bytes(_) => Err(
                syntax(about("unsupported bytes attribute name"@, attr)),
            ),
        }
    }
}

impl FieldDefinition {
    /// Updates the attribute `attr_name` of the definition.
    pub fn update(&mut self, attr_name: &str, expr: Expr) -> (r: Result<(), BajzelError>)
        ensures
            match old(self)@.updated(attr_name@, expr@) {
                Ok(d) => r is Ok && final(self)@ == d,
                Err(e) => r matches Err(x) && x@ == e && final(self)@ == old(self)@,
            },
    {
        match self {
            FieldDefinition::ConstString(_) => syntax_err(
                "'string' type does not have any attributes",
            ),
            FieldDefinition::TextNumber(def) => def.update(attr_name, expr),
            FieldDefinition::AsciiString(def) => def.update(attr_name, expr),
            FieldDefinition::ByteNumber(def) => def.update(attr_name, expr),
            FieldDefinition::Bytes(def) => def.update(attr_name, expr),
        }
    }
}

/// A definition and the name by which later statements address it.
#[derive(Debug, PartialEq, Eq)]
pub struct Field {
    pub def: FieldDefinition,
    pub alias: Option<String>,
}

pub struct FieldView {
    pub def: FieldDefinitionView,
    pub alias: Option<Seq<char>>,
}

impl View for Field {
    type V = FieldView;

    open spec fn view(&self) -> FieldView {
        FieldView {
            def: self.def@,
            alias: match self.alias {
                Some(a) => Some(a@),
                None => None,
            },
        }
    }
}

/// The fields of a record, in the order in which they are emitted.
#[derive(Debug, PartialEq, Eq)]
pub struct GroupDefinition {
    pub fields: Vec<Field>,
}

/// The views of fields, one for one.
pub open spec fn fields_view(fields: Seq<Field>) -> Seq<FieldView> {
    Seq::new(fields.len(), |i: int| fields[i]@)
}

impl View for GroupDefinition {
    type V = Seq<FieldView>;

    open spec fn view(&self) -> Seq<FieldView> {
        fields_view(self.fields@)
    }
}

/// The position of the first of `fields` with the alias `name`, at or
/// after `from`.
pub open spec fn first_with_alias(fields: Seq<FieldView>, name: Seq<char>, from: int) -> Option<
    int,
>
    decreases fields.len() - from,
{
    if from < 0 || from >= fields.len() {
        None
    } else if fields[from].alias == Some(name) {
        Some(from)
    } else {
        first_with_alias(fields, name, from + 1)
    }
}

pub proof fn lemma_first_with_alias(fields: Seq<FieldView>, name: Seq<char>, from: int)
    requires
        0 <= from,
    ensures
        match first_with_alias(fields, name, from) {
            Some(i) => from <= i < fields.len() && fields[i].alias == Some(name) && forall|k: int|
                from <= k < i ==> (#[trigger] fields[k]).alias != Some(name),
            None => forall|k: int|
                from <= k < fields.len() ==> (#[trigger] fields[k]).alias != Some(name),
        },
    decreases fields.len() - from,
{
    if from < fields.len() && fields[from].alias != Some(name) {
        lemma_first_with_alias(fields, name, from + 1);
    }
}

impl GroupDefinition {
    pub fn new() -> (r: Self)
        ensures
            r@ == Seq::<FieldView>::empty(),
    {
        let r = GroupDefinition { fields: Vec::new() };
        assert(r@ =~= Seq::<FieldView>::empty());
        r
    }

    /// Appends a field.
    pub fn add_field(&mut self, field: Field)
        ensures
            final(self)@ == old(self)@.push(field@),
    {
        self.fields.push(field);
        assert(self@ =~= old(self)@.push(field@));
    }

    /// The position of the field that `name` addresses: the first one
    /// with that alias.
    pub fn find_field(&self, name: &str) -> (r: Option<usize>)
        ensures
            match r {
                Some(i) => i < self@.len() && first_with_alias(self@, name@, 0) == Some(i as int),
                None => first_with_alias(self@, name@, 0) is None,
            },
    {
        let mut i: usize = 0;
        while i < self.fields.len()
            invariant
                i <= self.fields.len(),
                first_with_alias(self@, name@, 0) == first_with_alias(self@, name@, i as int),
            decreases self.fields.len() - i,
        {
            let hit = match &self.fields[i].alias {
                Some(a) => same_text(a.as_str(), name),
                None => false,
            };
            if hit {
                return Some(i);
            }
            i += 1;
        }
        None
    }

    /// Updates the attribute `attr_name` of the field at `index`.
    pub fn update_field_at(&mut self, index: usize, attr_name: &str, expr: Expr) -> (r: Result<
        (),
        BajzelError,
    >)
        requires
            index < old(self)@.len(),
        ensures
            match old(self)@[index as int].def.updated(attr_name@, expr@) {
                Ok(d) => r is Ok && final(self)@ == old(self)@.update(
                    index as int,
                    FieldView { def: d, alias: old(self)@[index as int].alias },
                ),
                Err(e) => r matches Err(x) && x@ == e && final(self)@ == old(self)@,
            },
    {
        let r = self.fields[index].def.update(attr_name, expr);
        assert(self@ =~= old(self)@.update(index as int, self.fields[index as int]@));
        r
    }
}

impl Default for GroupDefinition {
    fn default() -> (r: Self)
        ensures
            r@ == Seq::<FieldView>::empty(),
    {
        Self::new()
    }
}

} // verus!
