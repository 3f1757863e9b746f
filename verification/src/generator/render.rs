//! How numbers are written: as text in a base, and as the bytes of a
//! format.

use crate::evaluator::structure::{ByteOrder, NumberDisplayFormat, NumberFormat};
use crate::generator::emission::{
    base_of, digit_char, digits, le_bytes, least, number_bytes, number_text, truncated,
};
use std::ops::ControlFlow;
use vstd::prelude::*;

verus! {

/// The bytes of a vector in the opposite order.
pub fn reversed(v: &Vec<u8>) -> (r: Vec<u8>)
    ensures
        r@ == v@.reverse(),
{
    let mut r: Vec<u8> = Vec::new();
    let mut k: usize = v.len();
    while k > 0
        invariant
            k <= v.len(),
            r@ == v@.reverse().take(v.len() - k),
        decreases k,
    {
        k -= 1;
        r.push(v[k]);
        assert(r@ =~= v@.reverse().take(v.len() - k));
    }
    assert(v@.reverse().take(v.len() as int) =~= v@.reverse());
    r
}

/// The character of the digit `d`.
pub fn digit_to_char(d: u8) -> (r: u8)
    requires
        d < 16,
    ensures
        r == digit_char(d as int),
{
    if d < 10 {
        0x30 + d
    } else {
        0x61 + (d - 10)
    }
}

/// The base of a display format.
pub fn display_base(display: Option<NumberDisplayFormat>) -> (r: u128)
    ensures
        r == base_of(display),
        2 <= r <= 16,
{
    match display {
        Some(NumberDisplayFormat::Binary) => 2,
        Some(NumberDisplayFormat::Octal) => 8,
        Some(NumberDisplayFormat::Hex) => 16,
        Some(NumberDisplayFormat::Decimal) => 10,
        None => 10,
    }
}

/// The digits of `m` in `base`, the least significant first.
fn digits_reversed(m: u128, base: u128) -> (rev: Vec<u8>)
    requires
        2 <= base <= 16,
    ensures
        rev@.reverse() == digits(m as nat, base as int),
{
    let mut n: u128 = m;
    let mut rev: Vec<u8> = Vec::new();
    assert(digits(n as nat, base as int) + rev@.reverse() =~= digits(m as nat, base as int));
    loop
        invariant_except_break
            2 <= base <= 16,
            digits(m as nat, base as int) == digits(n as nat, base as int) + rev@.reverse(),
        ensures
            rev@.reverse() == digits(m as nat, base as int),
        decreases n,
    {
        let d = (n % base) as u8;
        let q = n / base;
        let c = digit_to_char(d);
        let ghost before = rev@;
        rev.push(c);
        proof {
            assert(rev@.reverse() =~= seq![c] + before.reverse());
            assert((n as nat) / (base as nat) == q);
            assert((n as nat) % (base as nat) == d);
            assert(q == 0 <==> n < base) by (nonlinear_arith)
                requires
                    q == n / base,
                    2 <= base,
            ;
            if q != 0 {
                assert(q < n) by (nonlinear_arith)
                    requires
                        q == n / base,
                        2 <= base <= n,
                ;
                assert(digits(n as nat, base as int) == digits(q as nat, base as int).push(c));
                assert(digits(q as nat, base as int).push(c) + before.reverse() =~= digits(
                    q as nat,
                    base as int,
                ) + rev@.reverse());
            } else {
                assert(n % base == n) by (nonlinear_arith)
                    requires
                        n < base,
                ;
                assert(digits(n as nat, base as int) == seq![c]);
            }
        }
        if q == 0 {
            break ;
        }
        n = q;
    }
    rev
}

/// Writes a number as text in the base of its display format.
pub fn render_text(v: i128, display: Option<NumberDisplayFormat>) -> (r: Vec<u8>)
    ensures
        r@ == number_text(v as int, base_of(display)),
{
    let base = display_base(display);
    let magnitude: u128 = if v >= 0 {
        v as u128
    } else {
        ((-(v + 1)) as u128) + 1
    };
    let rev = digits_reversed(magnitude, base);
    let mut out: Vec<u8> = Vec::new();
    if v < 0 {
        out.push(0x2D);
    }
    let ghost sign = out@;
    let mut k: usize = rev.len();
    while k > 0
        invariant
            k <= rev.len(),
            out@ == sign + rev@.reverse().take(rev.len() - k),
        decreases k,
    {
        k -= 1;
        out.push(rev[k]);
        assert(out@ =~= sign + rev@.reverse().take(rev.len() - k));
    }
    proof {
        assert(rev@.reverse().take(rev.len() as int) =~= rev@.reverse());
        if v < 0 {
            assert(sign =~= seq![0x2Du8]);
        } else {
            assert(sign + rev@.reverse() =~= rev@.reverse());
        }
    }
    out
}

/// Writes a number as the bytes of a format, in a byte order.
pub fn render_bytes(v: i128, format: NumberFormat, order: ByteOrder) -> (r: Vec<u8>)
    ensures
        r@ == number_bytes(v as int, format, order),
{
    let width = format.byte_width();
    let negative = v < 0;
    let mut n: u128 = if negative {
        (-(v + 1)) as u128
    } else {
        v as u128
    };
    let ghost mut value: int = v as int;
    let mut out: Vec<u8> = Vec::new();
    let mut i: usize = 0;
    assert(out@ + le_bytes(value, width as nat) =~= le_bytes(v as int, width as nat));
    while i < width
        invariant
            i <= width,
            value == if negative {
                -(n as int) - 1
            } else {
                n as int
            },
            le_bytes(v as int, width as nat) == out@ + le_bytes(value, (width - i) as nat),
        decreases width - i,
    {
        let low = (n % 256) as u8;
        let byte = if negative {
            255 - low
        } else {
            low
        };
        proof {
            assert(byte == value % 256);
            assert(le_bytes(value, (width - i) as nat) == seq![byte] + le_bytes(
                value / 256,
                (width - i - 1) as nat,
            ));
            assert(out@ + (seq![byte] + le_bytes(value / 256, (width - i - 1) as nat))
                =~= out@.push(byte) + le_bytes(value / 256, (width - i - 1) as nat));
            value = value / 256;
        }
        out.push(byte);
        n = n / 256;
        i += 1;
    }
    assert(out@ + le_bytes(value, 0) =~= out@);
    match order {
        ByteOrder::LittleEndian => out,
        ByteOrder::BigEndian => reversed(&out),
    }
}

/// Adds to `bytes` what fits of `data` under the capacity `cap`, and says
/// whether the capacity is exhausted.
pub fn append_truncated(bytes: &mut Vec<u8>, cap: usize, data: &Vec<u8>) -> (cf: ControlFlow<()>)
    requires
        old(bytes)@.len() <= cap,
    ensures
        final(bytes)@ == old(bytes)@ + truncated(data@, cap - old(bytes)@.len()),
        final(bytes)@.len() <= cap,
        cf is Break <==> final(bytes)@.len() == cap,
{
    let room = cap - bytes.len();
    let count = if data.len() <= room {
        data.len()
    } else {
        room
    };
    let mut i: usize = 0;
    while i < count
        invariant
            i <= count <= data.len(),
            count == least(data@.len() as int, cap - old(bytes)@.len()),
            bytes@ == old(bytes)@ + data@.take(i as int),
        decreases count - i,
    {
        bytes.push(data[i]);
        assert(bytes@ =~= old(bytes)@ + data@.take(i + 1));
        i += 1;
    }
    assert(old(bytes)@ + data@.take(0) =~= old(bytes)@);
    if bytes.len() == cap {
        ControlFlow::Break(())
    } else {
        ControlFlow::Continue(())
    }
}

} // verus!
