//! What generation may emit: for each kind of field the bytes that it may
//! add to the output, and for a group the outputs that its fields may make
//! together.

use crate::evaluator::structure::{
    ByteOrder, FieldDefinitionView, FieldView, NumberDisplayFormat, NumberFormat,
};
use crate::random::is_alphanumeric;
use vstd::prelude::*;
use vstd::utf8::*;

verus! {

/// The lesser of two numbers.
pub open spec fn least(a: int, b: int) -> int {
    if a <= b {
        a
    } else {
        b
    }
}

/// What fits of `data` into `room` bytes: all of it, or its start.
pub open spec fn truncated(data: Seq<u8>, room: int) -> Seq<u8> {
    data.take(least(data.len() as int, room))
}

/// The base of a display format; without one a number is written in base
/// ten.
pub open spec fn base_of(display: Option<NumberDisplayFormat>) -> int {
    match display {
        Some(NumberDisplayFormat::Binary) => 2,
        Some(NumberDisplayFormat::Octal) => 8,
        Some(NumberDisplayFormat::Hex) => 16,
        Some(NumberDisplayFormat::Decimal) => 10,
        None => 10,
    }
}

/// The character of a digit, in lower case.
pub open spec fn digit_char(d: int) -> u8 {
    if d < 10 {
        (0x30 + d) as u8
    } else {
        (0x61 + d - 10) as u8
    }
}

/// The digits of a number in a base, the most significant first.
pub open spec fn digits(n: nat, base: int) -> Seq<u8>
    decreases n,
{
    if base < 2 || n < base {
        seq![digit_char(n as int)]
    } else {
        proof {
            assert(n / (base as nat) < n) by (nonlinear_arith)
                requires
                    2 <= base <= n,
            ;
        }
        digits(n / (base as nat), base).push(digit_char((n % (base as nat)) as int))
    }
}

/// A number as text: its digits, behind a minus sign where it is
/// negative.
pub open spec fn number_text(v: int, base: int) -> Seq<u8> {
    if v < 0 {
        seq![0x2Du8] + digits((-v) as nat, base)
    } else {
        digits(v as nat, base)
    }
}

/// The low `width` bytes of a number in two's complement, the least
/// significant first.
pub open spec fn le_bytes(v: int, width: nat) -> Seq<u8>
    decreases width,
{
    if width == 0 {
        Seq::empty()
    } else {
        seq![(v % 256) as u8] + le_bytes(v / 256, (width - 1) as nat)
    }
}

/// A number as the bytes of its format, in a byte order.
pub open spec fn number_bytes(v: int, format: NumberFormat, order: ByteOrder) -> Seq<u8> {
    match order {
        ByteOrder::LittleEndian => le_bytes(v, format.width()),
        ByteOrder::BigEndian => le_bytes(v, format.width()).reverse(),
    }
}

/// Whether every byte is an ASCII letter or digit.
pub open spec fn all_alphanumeric(chunk: Seq<u8>) -> bool {
    forall|i: int| 0 <= i < chunk.len() ==> is_alphanumeric(#[trigger] chunk[i])
}

/// Whether a field may add `chunk` to an output that has `room` bytes
/// left. No field adds more than fits. A constant adds what fits of it; a
/// string or a byte sequence adds as many units as its bounds allow, each
/// bound lowered to what fits; a number adds what fits of a number of its
/// range.
pub open spec fn chunk_ok(field: FieldDefinitionView, room: int, chunk: Seq<u8>) -> bool {
    match field {
        FieldDefinitionView::ConstString(s) => chunk == truncated(encode_utf8(s), room),
        FieldDefinitionView::AsciiString(d) => {
            &&& least(d.length_min as int, room) <= chunk.len() <= least(d.length_max as int, room)
            &&& all_alphanumeric(chunk)
        },
        FieldDefinitionView::Bytes(d) => {
            least(d.length_min as int, room) <= chunk.len() <= least(d.length_max as int, room)
        },
        FieldDefinitionView::TextNumber(d) => exists|v: int|
            d.min_value <= v <= d.max_value && chunk == truncated(
                #[trigger] number_text(v, base_of(d.display)),
                room,
            ),
        FieldDefinitionView::ByteNumber(d) => exists|v: int|
            d.min_value <= v <= d.max_value && chunk == truncated(
                #[trigger] number_bytes(v, d.format, d.endianess),
                room,
            ),
    }
}

/// Whether a field can be generated: its bounds are in order.
pub open spec fn sound(field: FieldDefinitionView) -> bool {
    match field {
        FieldDefinitionView::ConstString(_) => true,
        FieldDefinitionView::AsciiString(d) => d.length_min <= d.length_max,
        FieldDefinitionView::Bytes(d) => d.length_min <= d.length_max,
        FieldDefinitionView::TextNumber(d) => d.min_value <= d.max_value,
        FieldDefinitionView::ByteNumber(d) => d.min_value <= d.max_value,
    }
}

pub open spec fn all_sound(fields: Seq<FieldView>) -> bool {
    forall|i: int| 0 <= i < fields.len() ==> sound(#[trigger] fields[i].def)
}

/// Whether `out` may be the output of the fields for the capacity `cap`:
/// the chunks of the fields in their order, each one added to what the
/// fields before it left of the capacity.
pub open spec fn emitted(fields: Seq<FieldView>, cap: int, out: Seq<u8>) -> bool
    decreases fields.len(),
{
    if fields.len() == 0 {
        out.len() == 0
    } else {
        exists|k: int|
            0 <= k <= out.len() && emitted(fields.drop_last(), cap, #[trigger] out.take(k))
                && chunk_ok(fields.last().def, cap - k, out.skip(k))
    }
}

/// One field more: its chunk behind the output of the fields before it.
pub proof fn lemma_emitted_step(fields: Seq<FieldView>, i: int, cap: int, out: Seq<u8>, chunk: Seq<u8>)
    requires
        0 <= i < fields.len(),
        emitted(fields.take(i), cap, out),
        chunk_ok(fields[i].def, cap - out.len(), chunk),
    ensures
        emitted(fields.take(i + 1), cap, out + chunk),
{
    let next = fields.take(i + 1);
    let all = out + chunk;
    assert(next.drop_last() =~= fields.take(i));
    assert(next.last() == fields[i]);
    assert(all.take(out.len() as int) =~= out);
    assert(all.skip(out.len() as int) =~= chunk);
    assert(emitted(next.drop_last(), cap, all.take(out.len() as int)));
}

/// No chunk is longer than the room that is left.
pub proof fn lemma_chunk_fits(field: FieldDefinitionView, room: int, chunk: Seq<u8>)
    requires
        0 <= room,
        chunk_ok(field, room, chunk),
    ensures
        chunk.len() <= room,
{
}

/// With no room left, a field that can be generated adds nothing.
pub proof fn lemma_chunk_empty(field: FieldDefinitionView)
    requires
        sound(field),
    ensures
        chunk_ok(field, 0, Seq::empty()),
{
    match field {
        FieldDefinitionView::ConstString(s) => {
            assert(truncated(encode_utf8(s), 0) =~= Seq::<u8>::empty());
        },
        FieldDefinitionView::TextNumber(d) => {
            let v = d.min_value as int;
            assert(truncated(number_text(v, base_of(d.display)), 0) =~= Seq::<u8>::empty());
        },
        FieldDefinitionView::ByteNumber(d) => {
            let v = d.min_value as int;
            assert(truncated(number_bytes(v, d.format, d.endianess), 0) =~= Seq::<u8>::empty());
        },
        _ => {},
    }
}

/// An output that fills the capacity is the output of the fields that
/// follow too: they add nothing.
pub proof fn lemma_emitted_full(fields: Seq<FieldView>, i: int, j: int, cap: int, out: Seq<u8>)
    requires
        0 <= i <= j <= fields.len(),
        all_sound(fields),
        emitted(fields.take(i), cap, out),
        out.len() == cap,
    ensures
        emitted(fields.take(j), cap, out),
    decreases j - i,
{
    if i < j {
        lemma_emitted_full(fields, i, j - 1, cap, out);
        lemma_chunk_empty(fields[j - 1].def);
        lemma_emitted_step(fields, j - 1, cap, out, Seq::empty());
        assert(out + Seq::<u8>::empty() =~= out);
    }
}

/// The output is never longer than the capacity.
pub proof fn lemma_emitted_fits(fields: Seq<FieldView>, cap: int, out: Seq<u8>)
    requires
        0 <= cap,
        emitted(fields, cap, out),
    ensures
        out.len() <= cap,
    decreases fields.len(),
{
    if fields.len() > 0 {
        let k = choose|k: int|
            0 <= k <= out.len() && emitted(fields.drop_last(), cap, #[trigger] out.take(k))
                && chunk_ok(fields.last().def, cap - k, out.skip(k));
        lemma_emitted_fits(fields.drop_last(), cap, out.take(k));
        lemma_chunk_fits(fields.last().def, cap - k, out.skip(k));
    }
}

/// The number of bytes of the constant fields.
pub open spec fn constant_len(fields: Seq<FieldView>) -> nat
    decreases fields.len(),
{
    if fields.len() == 0 {
        0
    } else {
        constant_len(fields.drop_last()) + match fields.last().def {
            FieldDefinitionView::ConstString(s) => encode_utf8(s).len(),
            _ => 0,
        }
    }
}

/// The output holds the constants as far as the capacity reaches.
pub proof fn lemma_constants_emitted(fields: Seq<FieldView>, cap: int, out: Seq<u8>)
    requires
        0 <= cap,
        emitted(fields, cap, out),
    ensures
        out.len() >= least(cap, constant_len(fields) as int),
    decreases fields.len(),
{
    if fields.len() > 0 {
        let k = choose|k: int|
            0 <= k <= out.len() && emitted(fields.drop_last(), cap, #[trigger] out.take(k))
                && chunk_ok(fields.last().def, cap - k, out.skip(k));
        lemma_constants_emitted(fields.drop_last(), cap, out.take(k));
        lemma_emitted_fits(fields.drop_last(), cap, out.take(k));
        assert(out.take(k).len() == k);
        assert(out.skip(k).len() == out.len() - k);
        match fields.last().def {
            FieldDefinitionView::ConstString(s) => {
                let data = encode_utf8(s);
                assert(out.skip(k) == truncated(data, cap - k));
                assert(out.skip(k).len() == least(data.len() as int, cap - k));
            },
            _ => {},
        }
    }
}

/// Where the constant fields of a group are longer together than the
/// capacity, the output is exactly as long as the capacity, whatever the
/// other fields add.
pub proof fn lemma_constants_fill(fields: Seq<FieldView>, cap: int, out: Seq<u8>)
    requires
        0 <= cap,
        emitted(fields, cap, out),
        constant_len(fields) > cap,
    ensures
        out.len() == cap,
{
    lemma_constants_emitted(fields, cap, out);
    lemma_emitted_fits(fields, cap, out);
}

/// The bytes of the constant fields, one behind the other.
pub open spec fn constants(fields: Seq<FieldView>) -> Seq<u8>
    decreases fields.len(),
{
    if fields.len() == 0 {
        Seq::empty()
    } else {
        constants(fields.drop_last()) + match fields.last().def {
            FieldDefinitionView::ConstString(s) => encode_utf8(s),
            _ => Seq::empty(),
        }
    }
}

/// The output of a group of constants is what fits of them, one behind the
/// other.
pub proof fn lemma_constants_only(fields: Seq<FieldView>, cap: int, out: Seq<u8>)
    requires
        0 <= cap,
        forall|i: int| 0 <= i < fields.len() ==> (#[trigger] fields[i]).def is ConstString,
        emitted(fields, cap, out),
    ensures
        out == truncated(constants(fields), cap),
    decreases fields.len(),
{
    if fields.len() > 0 {
        let k = choose|k: int|
            0 <= k <= out.len() && emitted(fields.drop_last(), cap, #[trigger] out.take(k))
                && chunk_ok(fields.last().def, cap - k, out.skip(k));
        let before = fields.drop_last();
        assert forall|i: int| 0 <= i < before.len() implies (#[trigger] before[i]).def
            is ConstString by {
            assert(before[i] == fields[i]);
        }
        lemma_constants_only(before, cap, out.take(k));
        let head = constants(before);
        let data = encode_utf8(fields.last().def->ConstString_0);
        assert(out.take(k).len() == k);
        assert(out =~= out.take(k) + out.skip(k));
        assert(out.skip(k) == truncated(data, cap - k));
        assert(out =~= truncated(head + data, cap));
    } else {
        assert(out =~= truncated(constants(fields), cap));
    }
}

/// A group of one string field of the fixed length `len`, where `len`
/// fits the capacity, gives exactly `len` letters and digits.
pub proof fn lemma_fixed_length_string(field: FieldView, len: usize, cap: int, out: Seq<u8>)
    requires
        field.def == FieldDefinitionView::AsciiString(
            crate::evaluator::structure::AsciiStringDef { length_min: len, length_max: len },
        ),
        len <= cap,
        emitted(seq![field], cap, out),
    ensures
        out.len() == len,
        all_alphanumeric(out),
{
    let fields = seq![field];
    let k = choose|k: int|
        0 <= k <= out.len() && emitted(fields.drop_last(), cap, #[trigger] out.take(k)) && chunk_ok(
            fields.last().def,
            cap - k,
            out.skip(k),
        );
    assert(fields.drop_last().len() == 0);
    assert(out.take(k).len() == 0);
    assert(out.skip(0) =~= out);
}

} // verus!
