//! Generation: from the environment of a program to the bytes of one
//! record.

pub mod emission;
pub mod render;

use crate::error::{BajzelError, BajzelErrorView};
use crate::evaluator::generator::GenDefinition;
use crate::evaluator::structure::{
    AsciiStringDef, ByteNumberDef, BytesDef, FieldDefinition, FieldDefinitionView, FieldView,
    GroupDefinition, TextNumberDef,
};
use crate::evaluator::{ProgramEnv, ProgramEnvView};
use crate::generator::emission::{
    all_alphanumeric, all_sound, base_of, chunk_ok, emitted, least, lemma_emitted_full,
    lemma_emitted_step, number_bytes, number_text, sound, truncated,
};
use crate::generator::render::{append_truncated, render_bytes, render_text};
use crate::random::Dice;
use std::ops::ControlFlow;
use vstd::prelude::*;
use vstd::string::*;
use vstd::utf8::*;

verus! {

/// One who may alter what the generator emits.
pub trait Pixie {
    /// Whether the pixie is happy: a happy pixie leaves the data alone.
    fn is_happy(&self) -> bool;
}

/// The generator.
pub struct Gen {
    _pixies: Vec<Box<dyn Pixie>>,
}

impl Default for Gen {
    fn default() -> (r: Gen)
        ensures
            r.pixies() == Seq::<Box<dyn Pixie>>::empty(),
    {
        Gen::new(Vec::new())
    }
}

/// What generation emits from an environment: the fields of the group
/// that the generator names, and the capacity of the output. An
/// environment is not constructed properly where it lacks the generator or
/// that group, or where the bounds of a field of the group are out of
/// order.
pub open spec fn target_of(env: ProgramEnvView) -> Result<(Seq<FieldView>, int), BajzelErrorView> {
    match env.gen {
        None => Err(BajzelErrorView::NotConstructedProperly),
        Some(gen) => match env.group(gen.name) {
            None => Err(BajzelErrorView::NotConstructedProperly),
            Some(fields) => if all_sound(fields) {
                Ok((fields, gen.out_max as int))
            } else {
                Err(BajzelErrorView::NotConstructedProperly)
            },
        },
    }
}

/// Whether the bounds of a definition are in order.
pub fn is_sound(def: &FieldDefinition) -> (r: bool)
    ensures
        r == sound(def@),
{
    match def {
        FieldDefinition::ConstString(_) => true,
        FieldDefinition::AsciiString(d) => d.length_min <= d.length_max,
        FieldDefinition::Bytes(d) => d.length_min <= d.length_max,
        FieldDefinition::TextNumber(d) => d.min_value <= d.max_value,
        FieldDefinition::ByteNumber(d) => d.min_value <= d.max_value,
    }
}

/// Whether the bounds of every field of a group are in order.
pub fn is_group_sound(group: &GroupDefinition) -> (r: bool)
    ensures
        r == all_sound(group@),
{
    let mut i: usize = 0;
    while i < group.fields.len()
        invariant
            i <= group.fields.len(),
            forall|k: int| 0 <= k < i ==> sound(#[trigger] group@[k].def),
        decreases group.fields.len() - i,
    {
        if !is_sound(&group.fields[i].def) {
            assert(!sound(group@[i as int].def));
            return false;
        }
        i += 1;
    }
    true
}

/// The lesser of two lengths.
pub fn lesser(a: usize, b: usize) -> (r: usize)
    ensures
        r == least(a as int, b as int),
{
    if a <= b {
        a
    } else {
        b
    }
}

impl Gen {
    /// A generator with its pixies.
    pub fn new(_pixies: Vec<Box<dyn Pixie>>) -> (r: Gen)
        ensures
            r.pixies() == _pixies@,
    {
        Self { _pixies }
    }

    /// The pixies that the generator was made with, in their order.
    pub closed spec fn pixies(&self) -> Seq<Box<dyn Pixie>> {
        self._pixies@
    }

    /// Generates the bytes of one record, with dice that roll differently
    /// each time.
    pub fn generate(&self, env: &ProgramEnv) -> (r: Result<Vec<u8>, BajzelError>)
        ensures
            match target_of(env@) {
                Err(e) => r matches Err(x) && x@ == e,
                Ok((fields, cap)) => r matches Ok(out) && emitted(fields, cap, out@) && out@.len()
                    <= cap,
            },
    {
        let mut dice = Dice::new();
        self.generate_with(env, &mut dice)
    }

    /// Generates the bytes of one record with the given dice: the fields
    /// of the group that the generator names, in their order, as far as
    /// the greatest length of the output reaches.
    pub fn generate_with(&self, env: &ProgramEnv, dice: &mut Dice) -> (r: Result<
        Vec<u8>,
        BajzelError,
    >)
        ensures
            match target_of(env@) {
                Err(e) => r matches Err(x) && x@ == e,
                Ok((fields, cap)) => r matches Ok(out) && emitted(fields, cap, out@) && out@.len()
                    <= cap,
            },
    {
        let gen = match env.get_generator() {
            Ok(gen) => gen,
            Err(e) => {
                return Err(e);
            },
        };
        let group = match env.get_group(gen.name.as_str()) {
            Ok(group) => group,
            Err(e) => {
                return Err(e);
            },
        };
        if !is_group_sound(group) {
            return Err(BajzelError::NotConstructedProperly);
        }
        let mut bytes: Vec<u8> = Vec::new();
        self.generate_group(env, gen, group, &mut bytes, dice);
        Ok(bytes)
    }

    /// Emits the fields of a group, in their order, until the capacity is
    /// exhausted.
    pub fn generate_group(
        &self,
        _env: &ProgramEnv,
        gen: &GenDefinition,
        group: &GroupDefinition,
        bytes: &mut Vec<u8>,
        dice: &mut Dice,
    )
        requires
            old(bytes)@.len() == 0,
            all_sound(group@),
        ensures
            emitted(group@, gen.out_max as int, final(bytes)@),
            final(bytes)@.len() <= gen.out_max,
    {
        let cap = gen.out_max as usize;
        let ghost fields = group@;
        let mut i: usize = 0;
        assert(fields.take(0) =~= Seq::<FieldView>::empty());
        while i < group.fields.len()
            invariant_except_break
                i <= group.fields.len(),
            invariant
                fields == group@,
                all_sound(fields),
                cap == gen.out_max,
                bytes@.len() <= cap,
                0 <= i <= fields.len(),
                emitted(fields.take(i as int), cap as int, bytes@),
            ensures
                i == fields.len() || bytes@.len() == cap,
            decreases group.fields.len() - i,
        {
            let field = &group.fields[i];
            let ghost before = bytes@;
            assert(sound(fields[i as int].def));
            let cf = match &field.def {
                FieldDefinition::ConstString(x) => self.generate_const_string(x, bytes, cap),
                FieldDefinition::TextNumber(x) => self.generate_text_number(x, bytes, cap, dice),
                FieldDefinition::AsciiString(x) => self.generate_ascii_string(x, bytes, cap, dice),
                FieldDefinition::ByteNumber(x) => self.generate_byte_number(x, bytes, cap, dice),
                FieldDefinition::Bytes(x) => self.generate_bytes(x, bytes, cap, dice),
            };
            proof {
                let chunk = bytes@.skip(before.len() as int);
                assert(bytes@ =~= bytes@.take(before.len() as int) + chunk);
                lemma_emitted_step(fields, i as int, cap as int, before, chunk);
            }
            i += 1;
            if let ControlFlow::Break(_) = cf {
                break ;
            }
        }
        proof {
            if i < fields.len() {
                lemma_emitted_full(fields, i as int, fields.len() as int, cap as int, bytes@);
            }
            assert(fields.take(fields.len() as int) =~= fields);
        }
    }

    /// Emits a constant: what fits of it.
    pub fn generate_const_string(&self, x: &String, bytes: &mut Vec<u8>, cap: usize) -> (cf:
        ControlFlow<()>)
        requires
            old(bytes)@.len() <= cap,
        ensures
            old(bytes)@.len() <= final(bytes)@.len(),
            final(bytes)@.take(old(bytes)@.len() as int) == old(bytes)@,
            chunk_ok(
                FieldDefinitionView::ConstString(x@),
                cap - old(bytes)@.len(),
                final(bytes)@.skip(old(bytes)@.len() as int),
            ),
            final(bytes)@.len() <= cap,
            cf is Break <==> final(bytes)@.len() == cap,
    {
        let data = x.as_str().as_bytes_vec();
        let cf = append_truncated(bytes, cap, &data);
        proof {
            let chunk = truncated(data@, cap - old(bytes)@.len());
            assert(bytes@.take(old(bytes)@.len() as int) =~= old(bytes)@);
            assert(bytes@.skip(old(bytes)@.len() as int) =~= chunk);
        }
        cf
    }

    /// Emits a string of random letters and digits. Its length is drawn
    /// from the bounds of the definition, each lowered to the room that is
    /// left: it exceeds neither that room nor the greatest length of the
    /// definition.
    pub fn generate_ascii_string(
        &self,
        x: &AsciiStringDef,
        bytes: &mut Vec<u8>,
        cap: usize,
        dice: &mut Dice,
    ) -> (cf: ControlFlow<()>)
        requires
            old(bytes)@.len() <= cap,
            x.length_min <= x.length_max,
        ensures
            old(bytes)@.len() <= final(bytes)@.len(),
            final(bytes)@.take(old(bytes)@.len() as int) == old(bytes)@,
            chunk_ok(
                FieldDefinitionView::AsciiString(*x),
                cap - old(bytes)@.len(),
                final(bytes)@.skip(old(bytes)@.len() as int),
            ),
            final(bytes)@.len() - old(bytes)@.len() <= cap - old(bytes)@.len(),
            final(bytes)@.len() - old(bytes)@.len() <= x.length_max,
            final(bytes)@.len() <= cap,
            cf is Break <==> final(bytes)@.len() == cap,
    {
        let start = bytes.len();
        let available_len = cap - start;
        let min_len = lesser(x.length_min, available_len);
        let max_len = lesser(x.length_max, available_len);
        let rng_len: usize = if min_len == max_len {
            min_len
        } else {
            dice.length(min_len, max_len)
        };
        let mut i: usize = 0;
        while i < rng_len
            invariant
                i <= rng_len <= available_len,
                start == old(bytes)@.len(),
                available_len == cap - start,
                bytes@.len() == start + i,
                bytes@.take(start as int) == old(bytes)@,
                all_alphanumeric(bytes@.skip(start as int)),
            decreases rng_len - i,
        {
            let c = dice.alphanumeric();
            let ghost before = bytes@;
            bytes.push(c);
            proof {
                assert(bytes@.take(start as int) =~= before.take(start as int));
                assert(bytes@.skip(start as int) =~= before.skip(start as int).push(c));
            }
            i += 1;
        }
        if bytes.len() == cap {
            ControlFlow::Break(())
        } else {
            ControlFlow::Continue(())
        }
    }

    /// Emits a sequence of random bytes. Its length is drawn as the length
    /// of a string is.
    pub fn generate_bytes(&self, x: &BytesDef, bytes: &mut Vec<u8>, cap: usize, dice: &mut Dice) -> (cf:
        ControlFlow<()>)
        requires
            old(bytes)@.len() <= cap,
            x.length_min <= x.length_max,
        ensures
            old(bytes)@.len() <= final(bytes)@.len(),
            final(bytes)@.take(old(bytes)@.len() as int) == old(bytes)@,
            chunk_ok(
                FieldDefinitionView::Bytes(*x),
                cap - old(bytes)@.len(),
                final(bytes)@.skip(old(bytes)@.len() as int),
            ),
            final(bytes)@.len() - old(bytes)@.len() <= cap - old(bytes)@.len(),
            final(bytes)@.len() - old(bytes)@.len() <= x.length_max,
            final(bytes)@.len() <= cap,
            cf is Break <==> final(bytes)@.len() == cap,
    {
        let start = bytes.len();
        let available_len = cap - start;
        let min_len = lesser(x.length_min, available_len);
        let max_len = lesser(x.length_max, available_len);
        let rng_len: usize = if min_len == max_len {
            min_len
        } else {
            dice.length(min_len, max_len)
        };
        let mut i: usize = 0;
        while i < rng_len
            invariant
                i <= rng_len <= available_len,
                start == old(bytes)@.len(),
                available_len == cap - start,
                bytes@.len() == start + i,
                bytes@.take(start as int) == old(bytes)@,
            decreases rng_len - i,
        {
            let c = dice.byte();
            let ghost before = bytes@;
            bytes.push(c);
            proof {
                assert(bytes@.take(start as int) =~= before.take(start as int));
            }
            i += 1;
        }
        if bytes.len() == cap {
            ControlFlow::Break(())
        } else {
            ControlFlow::Continue(())
        }
    }

    /// Emits a random number of the range of the definition as the bytes
    /// of its format, in its byte order: what fits of them.
    pub fn generate_byte_number(
        &self,
        x: &ByteNumberDef,
        bytes: &mut Vec<u8>,
        cap: usize,
        dice: &mut Dice,
    ) -> (cf: ControlFlow<()>)
        requires
            old(bytes)@.len() <= cap,
            x.min_value <= x.max_value,
        ensures
            old(bytes)@.len() <= final(bytes)@.len(),
            final(bytes)@.take(old(bytes)@.len() as int) == old(bytes)@,
            chunk_ok(
                FieldDefinitionView::ByteNumber(*x),
                cap - old(bytes)@.len(),
                final(bytes)@.skip(old(bytes)@.len() as int),
            ),
            final(bytes)@.len() <= cap,
            cf is Break <==> final(bytes)@.len() == cap,
    {
        let value = dice.number(x.min_value, x.max_value);
        let data = render_bytes(value, x.format, x.endianess);
        let cf = append_truncated(bytes, cap, &data);
        proof {
            let chunk = truncated(
                number_bytes(value as int, x.format, x.endianess),
                cap - old(bytes)@.len(),
            );
            assert(bytes@.take(old(bytes)@.len() as int) =~= old(bytes)@);
            assert(bytes@.skip(old(bytes)@.len() as int) =~= chunk);
        }
        cf
    }

    /// Emits a random number of the range of the definition as text, in
    /// the base of its display format: what fits of it.
    pub fn generate_text_number(
        &self,
        x: &TextNumberDef,
        bytes: &mut Vec<u8>,
        cap: usize,
        dice: &mut Dice,
    ) -> (cf: ControlFlow<()>)
        requires
            old(bytes)@.len() <= cap,
            x.min_value <= x.max_value,
        ensures
            old(bytes)@.len() <= final(bytes)@.len(),
            final(bytes)@.take(old(bytes)@.len() as int) == old(bytes)@,
            chunk_ok(
                FieldDefinitionView::TextNumber(*x),
                cap - old(bytes)@.len(),
                final(bytes)@.skip(old(bytes)@.len() as int),
            ),
            final(bytes)@.len() <= cap,
            cf is Break <==> final(bytes)@.len() == cap,
    {
        let value = dice.number(x.min_value, x.max_value);
        let data = render_text(value, x.display);
        let cf = append_truncated(bytes, cap, &data);
        proof {
            let chunk = truncated(
                number_text(value as int, base_of(x.display)),
                cap - old(bytes)@.len(),
            );
            assert(bytes@.take(old(bytes)@.len() as int) =~= old(bytes)@);
            assert(bytes@.skip(old(bytes)@.len() as int) =~= chunk);
        }
        cf
    }
}

} // verus!
