//! The state machine that folds the statements of a program into the
//! environment that generation reads.

pub mod generator;
pub mod laws;
pub mod structure;

pub use crate::evaluator::structure::eval_expr_to_i64;

use crate::error::{about, syntax, syntax_err, syntax_err_about, BajzelError, BajzelErrorView};
use crate::evaluator::generator::{GenDefinition, GenDefinitionView};
use crate::evaluator::structure::{
    byte_number_format, first_with_alias, lemma_first_with_alias, text_number_format,
    AsciiStringDef, ByteNumberDef, BytesDef, Field, FieldDefinition, FieldDefinitionView,
    FieldView, GroupDefinition, NumberFormat, TextNumberDef,
};
use crate::parser::{
    alias_view, Expr, ExprView, Ident, Literal, LiteralView, Program, Statement, StatementView,
};
use crate::text::{same_text, same_text_ignoring_case, uppered};
use vstd::prelude::*;
use vstd::string::*;

verus! {

/// A group under its name.
pub struct GroupView {
    pub name: Seq<char>,
    pub fields: Seq<FieldView>,
}

/// The mathematical content of a [`ProgramEnv`]: the groups in the order
/// in which they were created, no two of one name, the generator if there
/// is one, and the names of the group and the field that statements
/// address.
pub struct ProgramEnvView {
    pub groups: Seq<GroupView>,
    pub gen: Option<GenDefinitionView>,
    pub cur_group: Option<Seq<char>>,
    pub cur_field: Option<Seq<char>>,
}

/// The position of the first of `groups` with the name `name`, at or after
/// `from`.
pub open spec fn group_position(groups: Seq<GroupView>, name: Seq<char>, from: int) -> Option<int>
    decreases groups.len() - from,
{
    if from < 0 || from >= groups.len() {
        None
    } else if groups[from].name == name {
        Some(from)
    } else {
        group_position(groups, name, from + 1)
    }
}

pub proof fn lemma_group_position(groups: Seq<GroupView>, name: Seq<char>, from: int)
    requires
        0 <= from,
    ensures
        match group_position(groups, name, from) {
            Some(i) => from <= i < groups.len() && groups[i].name == name && forall|k: int|
                from <= k < i ==> (#[trigger] groups[k]).name != name,
            None => forall|k: int| from <= k < groups.len() ==> (#[trigger] groups[k]).name != name,
        },
    decreases groups.len() - from,
{
    if from < groups.len() && groups[from].name != name {
        lemma_group_position(groups, name, from + 1);
    }
}

/// No two groups have one name.
pub open spec fn distinct_names(groups: Seq<GroupView>) -> bool {
    forall|i: int, j: int|
        0 <= i < j < groups.len() ==> (#[trigger] groups[i]).name != (#[trigger] groups[j]).name
}

/// The definition of a variable field of the kind `kind`.
pub open spec fn variable_field(kind: Seq<char>) -> Option<FieldDefinitionView> {
    if let Some((format, order)) = byte_number_format(kind) {
        Some(FieldDefinitionView::ByteNumber(ByteNumberDef::natural(format, order)))
    } else if kind == "string"@ {
        Some(FieldDefinitionView::AsciiString(AsciiStringDef { length_min: 0, length_max: 4096 }))
    } else if kind == "bytes"@ {
        Some(FieldDefinitionView::Bytes(BytesDef { length_min: 0, length_max: 4096 }))
    } else if let Some(format) = text_number_format(kind) {
        Some(FieldDefinitionView::TextNumber(TextNumberDef::natural(format)))
    } else {
        None
    }
}

/// The definition of a constant field that holds `literal`. A string makes
/// a constant string. An integer makes a 64-bit text number with the whole
/// range of its format: the value of the literal is not kept, and
/// generation draws the number at random. Byte sequences and reserved
/// literals make no field yet.
pub open spec fn constant_field(literal: LiteralView) -> Result<
    FieldDefinitionView,
    BajzelErrorView,
> {
    match literal {
        LiteralView::IntegerLiteral(_) => Ok(
            FieldDefinitionView::TextNumber(TextNumberDef::natural(NumberFormat::Int64)),
        ),
        LiteralView::StringLiteral(s) => Ok(FieldDefinitionView::ConstString(s)),
        LiteralView::BytesLiteral(_) => Err(syntax("bytes literals not implemented"@)),
        LiteralView::Reserved(_) => Err(syntax("reserved literals not implemented"@)),
    }
}

impl ProgramEnvView {
    /// The environment before the first statement.
    pub open spec fn initial() -> ProgramEnvView {
        ProgramEnvView { groups: Seq::empty(), gen: None, cur_group: None, cur_field: None }
    }

    /// The position of the group of that name.
    pub open spec fn position(self, name: Seq<char>) -> Option<int> {
        group_position(self.groups, name, 0)
    }

    /// The fields of the group of that name.
    pub open spec fn group(self, name: Seq<char>) -> Option<Seq<FieldView>> {
        match self.position(name) {
            Some(i) => Some(self.groups[i].fields),
            None => None,
        }
    }

    /// The position of the group that statements address.
    pub open spec fn current(self) -> Option<int> {
        match self.cur_group {
            Some(name) => self.position(name),
            None => None,
        }
    }

    /// Valid environments hold no two groups of one name, and address a
    /// group only where it exists.
    pub open spec fn valid(self) -> bool {
        &&& distinct_names(self.groups)
        &&& self.cur_group is Some ==> self.current() is Some
    }

    /// A group of that name, without fields, becomes the current group; a
    /// group that had the name is replaced where it stands.
    pub open spec fn with_group(self, name: Seq<char>) -> ProgramEnvView {
        let fresh = GroupView { name, fields: Seq::empty() };
        ProgramEnvView {
            groups: match self.position(name) {
                Some(i) => self.groups.update(i, fresh),
                None => self.groups.push(fresh),
            },
            gen: self.gen,
            cur_group: Some(name),
            cur_field: None,
        }
    }

    /// The generator is defined once.
    pub open spec fn with_generator(self, name: Seq<char>) -> Result<
        ProgramEnvView,
        BajzelErrorView,
    > {
        if self.gen is Some {
            Err(syntax("single GENERATE section allowed"@))
        } else {
            Ok(ProgramEnvView { gen: Some(GenDefinitionView::initial(name)), ..self })
        }
    }

    /// A field is appended to the current group.
    pub open spec fn with_field(self, def: FieldDefinitionView, alias: Option<Seq<char>>) -> Result<
        ProgramEnvView,
        BajzelErrorView,
    > {
        match self.current() {
            Some(i) => Ok(
                ProgramEnvView {
                    groups: self.groups.update(
                        i,
                        GroupView {
                            name: self.groups[i].name,
                            fields: self.groups[i].fields.push(FieldView { def, alias }),
                        },
                    ),
                    ..self
                },
            ),
            None => Err(BajzelErrorView::NotConstructedProperly),
        }
    }

    pub open spec fn with_current_field(self, name: Seq<char>) -> ProgramEnvView {
        ProgramEnvView { cur_field: Some(name), ..self }
    }

    pub open spec fn without_current_field(self) -> ProgramEnvView {
        ProgramEnvView { cur_field: None, ..self }
    }

    /// The position, in the current group, of the field that statements
    /// address: the first one with the current alias.
    pub open spec fn current_field(self) -> Result<(int, int), BajzelErrorView> {
        match self.current() {
            None => Err(BajzelErrorView::NotConstructedProperly),
            Some(i) => match self.cur_field {
                None => Err(syntax("no field was made current"@)),
                Some(name) => match first_with_alias(self.groups[i].fields, name, 0) {
                    None => Err(syntax(about("unknown field"@, name))),
                    Some(k) => Ok((i, k)),
                },
            },
        }
    }

    /// The attribute `attr` of the current field is updated with `e`.
    pub open spec fn with_field_update(self, attr: Seq<char>, e: ExprView) -> Result<
        ProgramEnvView,
        BajzelErrorView,
    > {
        match self.current_field() {
            Err(e) => Err(e),
            Ok((i, k)) => {
                let fields = self.groups[i].fields;
                match fields[k].def.updated(attr, e) {
                    Err(e) => Err(e),
                    Ok(def) => Ok(
                        ProgramEnvView {
                            groups: self.groups.update(
                                i,
                                GroupView {
                                    name: self.groups[i].name,
                                    fields: fields.update(
                                        k,
                                        FieldView { def, alias: fields[k].alias },
                                    ),
                                },
                            ),
                            ..self
                        },
                    ),
                }
            },
        }
    }

    /// The parameter `param` of the generator, named in any case, is
    /// updated with `e`.
    pub open spec fn with_param(self, param: Seq<char>, e: ExprView) -> Result<
        ProgramEnvView,
        BajzelErrorView,
    > {
        match self.gen {
            None => Err(BajzelErrorView::NotConstructedProperly),
            Some(def) => {
                let updated = if uppered(param) == uppered("OUT_MIN"@) {
                    def.with_min_output_len(e)
                } else if uppered(param) == uppered("OUT_MAX"@) {
                    def.with_max_output_len(e)
                } else if uppered(param) == uppered("TERM"@) {
                    def.with_term(e)
                } else {
                    Err(syntax(about("unsupported generator parameter"@, param)))
                };
                match updated {
                    Ok(d) => Ok(ProgramEnvView { gen: Some(d), ..self }),
                    Err(e) => Err(e),
                }
            },
        }
    }

    /// A constant field that holds `literal` is appended to the current
    /// group.
    pub open spec fn with_const_field(self, literal: LiteralView, alias: Option<Seq<char>>) -> Result<
        ProgramEnvView,
        BajzelErrorView,
    > {
        match constant_field(literal) {
            Ok(def) => self.with_field(def, alias),
            Err(e) => Err(e),
        }
    }

    /// A variable field of the kind `kind` is appended to the current
    /// group.
    pub open spec fn with_var_field(self, kind: Seq<char>, alias: Option<Seq<char>>) -> Result<
        ProgramEnvView,
        BajzelErrorView,
    > {
        match variable_field(kind) {
            Some(def) => self.with_field(def, alias),
            None => Err(syntax(about("Unsupported variable field type"@, kind))),
        }
    }
}

/// Brings an expression into the form in which attributes and parameters
/// take it. Expressions are literals and groups of literals, which are in
/// that form as they stand.
pub fn eval_expr(expr: Expr) -> (r: Result<Expr, BajzelError>)
    ensures
        r matches Ok(e) && e == expr,
{
    Ok(expr)
}

/// A group under its name.
#[derive(Debug)]
struct GroupEntry {
    name: String,
    def: GroupDefinition,
}

/// What evaluation has gathered: the groups by name, the generator, and
/// the group and the field that statements address.
#[derive(Debug)]
pub struct ProgramEnv {
    /// The groups, in the order in which they were created.
    groups: Vec<GroupEntry>,
    /// The definition of the generator.
    gen: Option<GenDefinition>,
    /// The name of the group to which fields are added.
    cur_group: Option<String>,
    /// The alias of the field whose attributes are updated.
    cur_field: Option<String>,
}

/// The views of groups, one for one.
spec fn entries_view(entries: Seq<GroupEntry>) -> Seq<GroupView> {
    Seq::new(entries.len(), |i: int| GroupView { name: entries[i].name@, fields: entries[i].def@ })
}

impl View for ProgramEnv {
    type V = ProgramEnvView;

    closed spec fn view(&self) -> ProgramEnvView {
        ProgramEnvView {
            groups: entries_view(self.groups@),
            gen: match self.gen {
                Some(g) => Some(g@),
                None => None,
            },
            cur_group: match self.cur_group {
                Some(g) => Some(g@),
                None => None,
            },
            cur_field: match self.cur_field {
                Some(f) => Some(f@),
                None => None,
            },
        }
    }
}

impl ProgramEnv {
    pub fn new() -> (r: Self)
        ensures
            r@ == ProgramEnvView::initial(),
    {
        let r = ProgramEnv { groups: Vec::new(), gen: None, cur_group: None, cur_field: None };
        assert(r@.groups =~= Seq::empty());
        r
    }

    /// The position of the group of that name.
    fn find_group(&self, name: &str) -> (r: Option<usize>)
        ensures
            match r {
                Some(i) => i < self.groups@.len() && self@.position(name@) == Some(i as int),
                None => self@.position(name@) is None,
            },
    {
        let mut i: usize = 0;
        while i < self.groups.len()
            invariant
                i <= self.groups.len(),
                self@.position(name@) == group_position(self@.groups, name@, i as int),
            decreases self.groups.len() - i,
        {
            if same_text(self.groups[i].name.as_str(), name) {
                return Some(i);
            }
            i += 1;
        }
        None
    }

    /// The position of the current group.
    fn find_current(&self) -> (r: Option<usize>)
        ensures
            match r {
                Some(i) => i < self.groups@.len() && self@.current() == Some(i as int),
                None => self@.current() is None,
            },
    {
        match &self.cur_group {
            Some(name) => self.find_group(name.as_str()),
            None => None,
        }
    }

    /// Creates a group without fields and makes it the current one.
    pub fn create_group(&mut self, name: Ident)
        ensures
            final(self)@ == old(self)@.with_group(name@),
    {
        let found = self.find_group(name.as_str());
        self.cur_field = None;
        self.cur_group = Some(name.0.clone());
        match found {
            Some(i) => {
                self.groups[i].def = GroupDefinition::new();
                proof {
                    lemma_group_position(old(self)@.groups, name@, 0);
                }
                assert(self@.groups =~= old(self)@.groups.update(
                    i as int,
                    GroupView { name: name@, fields: Seq::empty() },
                ));
            },
            None => {
                self.groups.push(GroupEntry { name: name.0, def: GroupDefinition::new() });
                assert(self@.groups =~= old(self)@.groups.push(
                    GroupView { name: name@, fields: Seq::empty() },
                ));
            },
        }
    }

    /// Creates the definition of the generator. A program has one
    /// `GENERATE` section: a second call fails.
    pub fn create_generator(&mut self, name: Ident) -> (r: Result<(), BajzelError>)
        ensures
            match old(self)@.with_generator(name@) {
                Ok(env) => r is Ok && final(self)@ == env,
                Err(e) => r matches Err(x) && x@ == e && final(self)@ == old(self)@,
            },
    {
        if self.gen.is_some() {
            syntax_err("single GENERATE section allowed")
        } else {
            self.gen = Some(GenDefinition::new(name.0));
            Ok(())
        }
    }

    /// Whether statements address a group that exists.
    pub fn has_current_group(&self) -> (r: bool)
        ensures
            r == (self@.current() is Some),
    {
        self.find_current().is_some()
    }

    /// Whether the generator is defined.
    pub fn has_generator(&self) -> (r: bool)
        ensures
            r == (self@.gen is Some),
    {
        self.gen.is_some()
    }

    /// Appends a field to the current group.
    pub fn create_field(&mut self, def: FieldDefinition, alias: Option<Ident>)
        requires
            old(self)@.current() is Some,
        ensures
            Ok::<ProgramEnvView, BajzelErrorView>(final(self)@) == old(self)@.with_field(
                def@,
                alias_view(alias),
            ),
    {
        let field = Field {
            def,
            alias: match alias {
                Some(ident) => Some(ident.0),
                None => None,
            },
        };
        match self.find_current() {
            Some(i) => {
                self.groups[i].def.add_field(field);
                assert(self@.groups =~= old(self)@.groups.update(
                    i as int,
                    GroupView {
                        name: old(self)@.groups[i as int].name,
                        fields: old(self)@.groups[i as int].fields.push(field@),
                    },
                ));
            },
            None => {},
        }
    }

    /// Makes the field of that alias the current one: later updates of
    /// attributes go to it.
    pub fn use_field(&mut self, name: Ident)
        ensures
            final(self)@ == old(self)@.with_current_field(name@),
    {
        self.cur_field = Some(name.0);
    }

    /// Forgets which field is the current one.
    pub fn clear_field(&mut self)
        ensures
            final(self)@ == old(self)@.without_current_field(),
    {
        self.cur_field = None;
    }

    /// The positions of the current group and, in it, of the current
    /// field.
    fn locate_field(&self) -> (r: Result<(usize, usize), BajzelError>)
        ensures
            match r {
                Ok((i, k)) => i < self.groups@.len() && k < self.groups@[i as int].def@.len()
                    && self@.current_field() == Ok::<(int, int), BajzelErrorView>(
                    (i as int, k as int),
                ),
                Err(x) => self@.current_field() == Err::<(int, int), BajzelErrorView>(x@),
            },
    {
        match self.find_current() {
            None => Err(BajzelError::NotConstructedProperly),
            Some(i) => {
                match &self.cur_field {
                    None => syntax_err("no field was made current"),
                    Some(name) => {
                        proof {
                            lemma_first_with_alias(self.groups@[i as int].def@, name@, 0);
                        }
                        match self.groups[i].def.find_field(name.as_str()) {
                            None => syntax_err_about("unknown field", name.as_str()),
                            Some(k) => Ok((i, k)),
                        }
                    },
                }
            },
        }
    }

    /// Updates the attribute `attr` of the current field with `expr`.
    pub fn update_field(&mut self, attr: Ident, expr: Expr) -> (r: Result<(), BajzelError>)
        ensures
            match old(self)@.with_field_update(attr@, expr@) {
                Ok(env) => r is Ok && final(self)@ == env,
                Err(e) => r matches Err(x) && x@ == e && final(self)@ == old(self)@,
            },
    {
        let expr = match eval_expr(expr) {
            Ok(e) => e,
            Err(e) => {
                return Err(e);
            },
        };
        match self.locate_field() {
            Err(e) => Err(e),
            Ok((i, k)) => {
                let r = self.groups[i].def.update_field_at(k, attr.as_str(), expr);
                proof {
                    if r is Ok {
                        let fields = old(self)@.groups[i as int].fields;
                        let def = fields[k as int].def.updated(attr@, expr@)->Ok_0;
                        assert(self@.groups =~= old(self)@.groups.update(
                            i as int,
                            GroupView {
                                name: old(self)@.groups[i as int].name,
                                fields: fields.update(
                                    k as int,
                                    FieldView { def, alias: fields[k as int].alias },
                                ),
                            },
                        ));
                    } else {
                        assert(self@.groups =~= old(self)@.groups);
                    }
                }
                r
            },
        }
    }

    /// The current field of the current group.
    pub fn get_field(&self) -> (r: Result<&Field, BajzelError>)
        ensures
            match self@.current_field() {
                Ok((i, k)) => r matches Ok(field) && field@ == self@.groups[i].fields[k],
                Err(e) => r matches Err(x) && x@ == e,
            },
    {
        match self.locate_field() {
            Ok((i, k)) => Ok(&self.groups[i].def.fields[k]),
            Err(e) => Err(e),
        }
    }

    /// Updates the parameter `param` of the generator with `expr`.
    pub fn update_param(&mut self, param: Ident, expr: Expr) -> (r: Result<(), BajzelError>)
        ensures
            match old(self)@.with_param(param@, expr@) {
                Ok(env) => r is Ok && final(self)@ == env,
                Err(e) => r matches Err(x) && x@ == e && final(self)@ == old(self)@,
            },
    {
        match &mut self.gen {
            None => Err(BajzelError::NotConstructedProperly),
            Some(def) => {
                if same_text_ignoring_case(param.as_str(), "OUT_MIN") {
                    def.set_min_output_len(expr)
                } else if same_text_ignoring_case(param.as_str(), "OUT_MAX") {
                    def.set_max_output_len(expr)
                } else if same_text_ignoring_case(param.as_str(), "TERM") {
                    def.set_term(expr)
                } else {
                    syntax_err_about("unsupported generator parameter", param.as_str())
                }
            },
        }
    }

    /// The group of that name.
    pub fn get_group(&self, name: &str) -> (r: Result<&GroupDefinition, BajzelError>)
        ensures
            match self@.group(name@) {
                Some(fields) => r matches Ok(g) && g@ == fields,
                None => r matches Err(e) && e@ == BajzelErrorView::NotConstructedProperly,
            },
    {
        match self.find_group(name) {
            Some(i) => Ok(&self.groups[i].def),
            None => Err(BajzelError::NotConstructedProperly),
        }
    }

    /// The definition of the generator.
    pub fn get_generator(&self) -> (r: Result<&GenDefinition, BajzelError>)
        ensures
            match self@.gen {
                Some(g) => r matches Ok(d) && d@ == g,
                None => r matches Err(e) && e@ == BajzelErrorView::NotConstructedProperly,
            },
    {
        match &self.gen {
            Some(g) => Ok(g),
            None => Err(BajzelError::NotConstructedProperly),
        }
    }
}

impl Default for ProgramEnv {
    fn default() -> (r: Self)
        ensures
            r@ == ProgramEnvView::initial(),
    {
        Self::new()
    }
}

/// The states of evaluation, each with what was gathered so far.
#[derive(Debug)]
pub enum Evaluator {
    Started(ProgramEnv),
    DefiningFields(ProgramEnv),
    DefiningFieldAttr(ProgramEnv),
    UpdatingFieldAttrs(ProgramEnv),
    DefiningGenerator(ProgramEnv),
    Finished(ProgramEnv),
}

pub enum EvaluatorView {
    Started(ProgramEnvView),
    DefiningFields(ProgramEnvView),
    DefiningFieldAttr(ProgramEnvView),
    UpdatingFieldAttrs(ProgramEnvView),
    DefiningGenerator(ProgramEnvView),
    Finished(ProgramEnvView),
}

impl View for Evaluator {
    type V = EvaluatorView;

    open spec fn view(&self) -> EvaluatorView {
        match self {
            Evaluator::Started(env) => EvaluatorView::Started(env@),
            Evaluator::DefiningFields(env) => EvaluatorView::DefiningFields(env@),
            Evaluator::DefiningFieldAttr(env) => EvaluatorView::DefiningFieldAttr(env@),
            Evaluator::UpdatingFieldAttrs(env) => EvaluatorView::UpdatingFieldAttrs(env@),
            Evaluator::DefiningGenerator(env) => EvaluatorView::DefiningGenerator(env@),
            Evaluator::Finished(env) => EvaluatorView::Finished(env@),
        }
    }
}

impl EvaluatorView {
    /// The environment of the state.
    pub open spec fn env(self) -> ProgramEnvView {
        match self {
            EvaluatorView::Started(env) => env,
            EvaluatorView::DefiningFields(env) => env,
            EvaluatorView::DefiningFieldAttr(env) => env,
            EvaluatorView::UpdatingFieldAttrs(env) => env,
            EvaluatorView::DefiningGenerator(env) => env,
            EvaluatorView::Finished(env) => env,
        }
    }
}

/// The view of the outcome of a step.
pub open spec fn step_view(r: Result<Evaluator, BajzelError>) -> Result<
    EvaluatorView,
    BajzelErrorView,
> {
    match r {
        Ok(state) => Ok(state@),
        Err(e) => Err(e@),
    }
}

/// On success the fields of a group are defined next; entering that state
/// clears the current field.
pub open spec fn into_fields(r: Result<ProgramEnvView, BajzelErrorView>) -> Result<
    EvaluatorView,
    BajzelErrorView,
> {
    match r {
        Ok(env) => Ok(EvaluatorView::DefiningFields(env.without_current_field())),
        Err(e) => Err(e),
    }
}

pub open spec fn into_field_attr(r: Result<ProgramEnvView, BajzelErrorView>) -> Result<
    EvaluatorView,
    BajzelErrorView,
> {
    match r {
        Ok(env) => Ok(EvaluatorView::DefiningFieldAttr(env)),
        Err(e) => Err(e),
    }
}

pub open spec fn into_updating(r: Result<ProgramEnvView, BajzelErrorView>) -> Result<
    EvaluatorView,
    BajzelErrorView,
> {
    match r {
        Ok(env) => Ok(EvaluatorView::UpdatingFieldAttrs(env)),
        Err(e) => Err(e),
    }
}

pub open spec fn into_generator(r: Result<ProgramEnvView, BajzelErrorView>) -> Result<
    EvaluatorView,
    BajzelErrorView,
> {
    match r {
        Ok(env) => Ok(EvaluatorView::DefiningGenerator(env)),
        Err(e) => Err(e),
    }
}

/// What a second `GENERATE` gives where none may follow: the failure of
/// the second definition, or the failure of the statement.
pub open spec fn no_generator_here(env: ProgramEnvView, name: Seq<char>, msg: Seq<char>) -> Result<
    EvaluatorView,
    BajzelErrorView,
> {
    match env.with_generator(name) {
        Err(e) => Err(e),
        Ok(_) => Err(syntax(msg)),
    }
}

/// Before the first group only `DEFINE` is in order.
pub open spec fn started_step(env: ProgramEnvView, s: StatementView) -> Result<
    EvaluatorView,
    BajzelErrorView,
> {
    match s {
        StatementView::StartGroupDefinition(name) => Ok(
            EvaluatorView::DefiningFields(env.with_group(name)),
        ),
        _ => Err(syntax("at least one DEFINE section is required"@)),
    }
}

pub open spec fn defining_fields_step(env: ProgramEnvView, s: StatementView) -> Result<
    EvaluatorView,
    BajzelErrorView,
> {
    let env = env.without_current_field();
    match s {
        StatementView::DefineConstField(literal, alias) => into_fields(
            env.with_const_field(literal, alias),
        ),
        StatementView::DefineVariableField(kind, alias) => into_fields(
            env.with_var_field(kind, alias),
        ),
        StatementView::MakeCurrentField(name) => Ok(
            EvaluatorView::DefiningFieldAttr(env.with_current_field(name)),
        ),
        StatementView::StartGroupDefinition(name) => Ok(
            EvaluatorView::DefiningFields(env.with_group(name)),
        ),
        StatementView::StartGeneratorDefinition(name) => into_generator(env.with_generator(name)),
        StatementView::StartFieldsSection => Ok(EvaluatorView::UpdatingFieldAttrs(env)),
        _ => Err(syntax("unexpected statement while defining fields"@)),
    }
}

pub open spec fn defining_field_attr_step(env: ProgramEnvView, s: StatementView) -> Result<
    EvaluatorView,
    BajzelErrorView,
> {
    match s {
        StatementView::UpdateField(attr, e) => into_field_attr(env.with_field_update(attr, e)),
        StatementView::DefineConstField(literal, alias) => into_fields(
            env.with_const_field(literal, alias),
        ),
        StatementView::DefineVariableField(kind, alias) => into_fields(
            env.with_var_field(kind, alias),
        ),
        StatementView::StartGroupDefinition(name) => Ok(
            EvaluatorView::DefiningFields(env.with_group(name)),
        ),
        StatementView::StartGeneratorDefinition(name) => into_generator(env.with_generator(name)),
        _ => Err(syntax("unexpected statement while defining field attributes"@)),
    }
}

pub open spec fn updating_field_attrs_step(env: ProgramEnvView, s: StatementView) -> Result<
    EvaluatorView,
    BajzelErrorView,
> {
    match s {
        StatementView::MakeCurrentField(name) => Ok(
            EvaluatorView::UpdatingFieldAttrs(env.with_current_field(name)),
        ),
        StatementView::UpdateField(attr, e) => into_updating(env.with_field_update(attr, e)),
        StatementView::StartGroupDefinition(name) => Ok(
            EvaluatorView::DefiningFields(env.with_group(name)),
        ),
        StatementView::StartGeneratorDefinition(name) => into_generator(env.with_generator(name)),
        _ => Err(syntax("unexpected statement while updating field attributes"@)),
    }
}

pub open spec fn defining_generator_step(env: ProgramEnvView, s: StatementView) -> Result<
    EvaluatorView,
    BajzelErrorView,
> {
    match s {
        StatementView::UpdateParam(name, e) => into_generator(env.with_param(name, e)),
        StatementView::Run => Ok(EvaluatorView::Finished(env)),
        StatementView::StartGeneratorDefinition(name) => no_generator_here(
            env,
            name,
            "unexpected statement while defining the generator"@,
        ),
        _ => Err(syntax("unexpected statement while defining the generator"@)),
    }
}

/// After the end no statement is in order.
pub open spec fn finished_step(env: ProgramEnvView, s: StatementView) -> Result<
    EvaluatorView,
    BajzelErrorView,
> {
    match s {
        StatementView::StartGeneratorDefinition(name) => no_generator_here(
            env,
            name,
            "unexpected statement after the end of the program"@,
        ),
        _ => Err(syntax("unexpected statement after the end of the program"@)),
    }
}

/// The state that follows `state` on the statement `s`, or the failure of
/// the statement.
pub open spec fn step(state: EvaluatorView, s: StatementView) -> Result<
    EvaluatorView,
    BajzelErrorView,
> {
    match state {
        EvaluatorView::Started(env) => started_step(env, s),
        EvaluatorView::DefiningFields(env) => defining_fields_step(env, s),
        EvaluatorView::DefiningFieldAttr(env) => defining_field_attr_step(env, s),
        EvaluatorView::UpdatingFieldAttrs(env) => updating_field_attrs_step(env, s),
        EvaluatorView::DefiningGenerator(env) => defining_generator_step(env, s),
        EvaluatorView::Finished(env) => finished_step(env, s),
    }
}

/// The state after the first `n` of the statements, or the first failure
/// among them.
pub open spec fn state_after(stmts: Seq<StatementView>, n: nat) -> Result<
    EvaluatorView,
    BajzelErrorView,
>
    decreases n,
{
    if n == 0 {
        Ok(EvaluatorView::Started(ProgramEnvView::initial()))
    } else {
        match state_after(stmts, (n - 1) as nat) {
            Ok(state) => step(state, stmts[n - 1]),
            Err(e) => Err(e),
        }
    }
}

/// The environment that the statements of a program evaluate to.
pub open spec fn evaluated(stmts: Seq<StatementView>) -> Result<ProgramEnvView, BajzelErrorView> {
    match state_after(stmts, stmts.len()) {
        Ok(EvaluatorView::Finished(env)) => Ok(env),
        Ok(_) => Err(BajzelErrorView::ProgramNotFinished),
        Err(e) => Err(e),
    }
}

/// The view of what evaluation returns.
pub open spec fn env_view(r: Result<ProgramEnv, BajzelError>) -> Result<
    ProgramEnvView,
    BajzelErrorView,
> {
    match r {
        Ok(env) => Ok(env@),
        Err(e) => Err(e@),
    }
}

/// A failure ends evaluation: the statements behind it change nothing.
pub proof fn lemma_failure_stays(stmts: Seq<StatementView>, n: nat, m: nat)
    requires
        n <= m,
        state_after(stmts, n) is Err,
    ensures
        state_after(stmts, m) == state_after(stmts, n),
    decreases m,
{
    if n < m {
        lemma_failure_stays(stmts, n, (m - 1) as nat);
    }
}

fn start_group_definition(ctx: &mut ProgramEnv, name: Ident) -> (r: Result<(), BajzelError>)
    ensures
        r is Ok,
        final(ctx)@ == old(ctx)@.with_group(name@),
{
    ctx.create_group(name);
    Ok(())
}

fn start_generator_definition(ctx: &mut ProgramEnv, name: Ident) -> (r: Result<(), BajzelError>)
    ensures
        match old(ctx)@.with_generator(name@) {
            Ok(env) => r is Ok && final(ctx)@ == env,
            Err(e) => r matches Err(x) && x@ == e && final(ctx)@ == old(ctx)@,
        },
{
    ctx.create_generator(name)
}

/// Adds a constant field to the current group. A string makes a constant
/// string; an integer makes a 64-bit text number of the whole range, so
/// the value of the literal is not kept; byte sequences and reserved
/// literals make no field yet and fail.
pub fn define_const_field(literal: Literal, ctx: &mut ProgramEnv, alias: Option<Ident>) -> (r:
    Result<(), BajzelError>)
    ensures
        match old(ctx)@.with_const_field(literal@, alias_view(alias)) {
            Ok(env) => r is Ok && final(ctx)@ == env,
            Err(e) => r matches Err(x) && x@ == e && final(ctx)@ == old(ctx)@,
        },
{
    let field_def = match literal {
        Literal::IntegerLiteral(_) => FieldDefinition::TextNumber(
            TextNumberDef::new(NumberFormat::Int64),
        ),
        Literal::StringLiteral(x) => FieldDefinition::ConstString(x),
        Literal::BytesLiteral(_) => {
            return syntax_err("bytes literals not implemented");
        },
        Literal::Reserved(_) => {
            return syntax_err("reserved literals not implemented");
        },
    };
    if !ctx.has_current_group() {
        return Err(BajzelError::NotConstructedProperly);
    }
    ctx.create_field(field_def, alias);
    Ok(())
}

/// The definition of a variable field of the kind `kind`.
pub fn resolve_kind(kind: &str) -> (r: Option<FieldDefinition>)
    ensures
        match variable_field(kind@) {
            Some(def) => r matches Some(d) && d@ == def,
            None => r is None,
        },
{
    if let Ok(def) = ByteNumberDef::from_str(kind) {
        Some(FieldDefinition::ByteNumber(def))
    } else if same_text(kind, "string") {
        Some(FieldDefinition::AsciiString(AsciiStringDef::new()))
    } else if same_text(kind, "bytes") {
        Some(FieldDefinition::Bytes(BytesDef::new()))
    } else if let Ok(def) = TextNumberDef::from_str(kind) {
        Some(FieldDefinition::TextNumber(def))
    } else {
        None
    }
}

/// Adds a variable field of the kind `kind` to the current group.
pub fn define_var_field(kind: String, ctx: &mut ProgramEnv, alias: Option<Ident>) -> (r: Result<
    (),
    BajzelError,
>)
    ensures
        match old(ctx)@.with_var_field(kind@, alias_view(alias)) {
            Ok(env) => r is Ok && final(ctx)@ == env,
            Err(e) => r matches Err(x) && x@ == e && final(ctx)@ == old(ctx)@,
        },
{
    match resolve_kind(kind.as_str()) {
        None => syntax_err_about("Unsupported variable field type", kind.as_str()),
        Some(field_def) => {
            if !ctx.has_current_group() {
                return Err(BajzelError::NotConstructedProperly);
            }
            ctx.create_field(field_def, alias);
            Ok(())
        },
    }
}

fn make_current_field(ctx: &mut ProgramEnv, name: Ident)
    ensures
        final(ctx)@ == old(ctx)@.with_current_field(name@),
{
    ctx.use_field(name);
}

fn update_current_field(ctx: &mut ProgramEnv, ident: Ident, expr: Expr) -> (r: Result<
    (),
    BajzelError,
>)
    ensures
        match old(ctx)@.with_field_update(ident@, expr@) {
            Ok(env) => r is Ok && final(ctx)@ == env,
            Err(e) => r matches Err(x) && x@ == e && final(ctx)@ == old(ctx)@,
        },
{
    ctx.update_field(ident, expr)
}

fn update_generator_param(ctx: &mut ProgramEnv, name: Ident, expr: Expr) -> (r: Result<
    (),
    BajzelError,
>)
    ensures
        match old(ctx)@.with_param(name@, expr@) {
            Ok(env) => r is Ok && final(ctx)@ == env,
            Err(e) => r matches Err(x) && x@ == e && final(ctx)@ == old(ctx)@,
        },
{
    ctx.update_param(name, expr)
}

/// Fails as a second `GENERATE` does where none may follow.
fn reject_generator(ctx: ProgramEnv, name: Ident, msg: &str) -> (r: Result<Evaluator, BajzelError>)
    ensures
        step_view(r) == no_generator_here(ctx@, name@, msg@),
{
    if ctx.has_generator() {
        syntax_err("single GENERATE section allowed")
    } else {
        syntax_err(msg)
    }
}

pub fn state_started(ctx: ProgramEnv, statement: Statement) -> (r: Result<Evaluator, BajzelError>)
    ensures
        step_view(r) == started_step(ctx@, statement@),
{
    let mut ctx = ctx;
    match statement {
        Statement::StartGroupDefinition(name) => {
            match start_group_definition(&mut ctx, name) {
                Ok(_) => Ok(Evaluator::DefiningFields(ctx)),
                Err(e) => Err(e),
            }
        },
        _ => syntax_err("at least one DEFINE section is required"),
    }
}

pub fn state_defining_fields(ctx: ProgramEnv, statement: Statement) -> (r: Result<
    Evaluator,
    BajzelError,
>)
    ensures
        step_view(r) == defining_fields_step(ctx@, statement@),
{
    let mut ctx = ctx;
    ctx.clear_field();
    match statement {
        Statement::DefineConstField(literal, alias) => {
            match define_const_field(literal, &mut ctx, alias) {
                Ok(_) => {
                    ctx.clear_field();
                    Ok(Evaluator::DefiningFields(ctx))
                },
                Err(e) => Err(e),
            }
        },
        Statement::DefineVariableField(kind, alias) => {
            match define_var_field(kind, &mut ctx, alias) {
                Ok(_) => {
                    ctx.clear_field();
                    Ok(Evaluator::DefiningFields(ctx))
                },
                Err(e) => Err(e),
            }
        },
        Statement::MakeCurrentField(name) => {
            make_current_field(&mut ctx, name);
            Ok(Evaluator::DefiningFieldAttr(ctx))
        },
        Statement::StartGroupDefinition(name) => {
            match start_group_definition(&mut ctx, name) {
                Ok(_) => Ok(Evaluator::DefiningFields(ctx)),
                Err(e) => Err(e),
            }
        },
        Statement::StartGeneratorDefinition(name) => {
            match start_generator_definition(&mut ctx, name) {
                Ok(_) => Ok(Evaluator::DefiningGenerator(ctx)),
                Err(e) => Err(e),
            }
        },
        Statement::StartFieldsSection => Ok(Evaluator::UpdatingFieldAttrs(ctx)),
        _ => syntax_err("unexpected statement while defining fields"),
    }
}

pub fn state_defining_field_attr(ctx: ProgramEnv, statement: Statement) -> (r: Result<
    Evaluator,
    BajzelError,
>)
    ensures
        step_view(r) == defining_field_attr_step(ctx@, statement@),
{
    let mut ctx = ctx;
    match statement {
        Statement::UpdateField(ident, expr) => {
            match update_current_field(&mut ctx, ident, expr) {
                Ok(_) => Ok(Evaluator::DefiningFieldAttr(ctx)),
                Err(e) => Err(e),
            }
        },
        Statement::DefineConstField(literal, alias) => {
            match define_const_field(literal, &mut ctx, alias) {
                Ok(_) => {
                    ctx.clear_field();
                    Ok(Evaluator::DefiningFields(ctx))
                },
                Err(e) => Err(e),
            }
        },
        Statement::DefineVariableField(kind, alias) => {
            match define_var_field(kind, &mut ctx, alias) {
                Ok(_) => {
                    ctx.clear_field();
                    Ok(Evaluator::DefiningFields(ctx))
                },
                Err(e) => Err(e),
            }
        },
        Statement::StartGroupDefinition(name) => {
            match start_group_definition(&mut ctx, name) {
                Ok(_) => Ok(Evaluator::DefiningFields(ctx)),
                Err(e) => Err(e),
            }
        },
        Statement::StartGeneratorDefinition(name) => {
            match start_generator_definition(&mut ctx, name) {
                Ok(_) => Ok(Evaluator::DefiningGenerator(ctx)),
                Err(e) => Err(e),
            }
        },
        _ => syntax_err("unexpected statement while defining field attributes"),
    }
}

pub fn state_updating_field_attrs(ctx: ProgramEnv, statement: Statement) -> (r: Result<
    Evaluator,
    BajzelError,
>)
    ensures
        step_view(r) == updating_field_attrs_step(ctx@, statement@),
{
    let mut ctx = ctx;
    match statement {
        Statement::MakeCurrentField(name) => {
            make_current_field(&mut ctx, name);
            Ok(Evaluator::UpdatingFieldAttrs(ctx))
        },
        Statement::UpdateField(ident, expr) => {
            match update_current_field(&mut ctx, ident, expr) {
                Ok(_) => Ok(Evaluator::UpdatingFieldAttrs(ctx)),
                Err(e) => Err(e),
            }
        },
        Statement::StartGroupDefinition(name) => {
            match start_group_definition(&mut ctx, name) {
                Ok(_) => Ok(Evaluator::DefiningFields(ctx)),
                Err(e) => Err(e),
            }
        },
        Statement::StartGeneratorDefinition(name) => {
            match start_generator_definition(&mut ctx, name) {
                Ok(_) => Ok(Evaluator::DefiningGenerator(ctx)),
                Err(e) => Err(e),
            }
        },
        _ => syntax_err("unexpected statement while updating field attributes"),
    }
}

pub fn state_defining_generator(ctx: ProgramEnv, statement: Statement) -> (r: Result<
    Evaluator,
    BajzelError,
>)
    ensures
        step_view(r) == defining_generator_step(ctx@, statement@),
{
    let mut ctx = ctx;
    match statement {
        Statement::UpdateParam(name, expr) => {
            match update_generator_param(&mut ctx, name, expr) {
                Ok(_) => Ok(Evaluator::DefiningGenerator(ctx)),
                Err(e) => Err(e),
            }
        },
        Statement::Run => Ok(Evaluator::Finished(ctx)),
        Statement::StartGeneratorDefinition(name) => reject_generator(
            ctx,
            name,
            "unexpected statement while defining the generator",
        ),
        _ => syntax_err("unexpected statement while defining the generator"),
    }
}

pub fn state_finished(ctx: ProgramEnv, statement: Statement) -> (r: Result<Evaluator, BajzelError>)
    ensures
        step_view(r) == finished_step(ctx@, statement@),
{
    match statement {
        Statement::StartGeneratorDefinition(name) => reject_generator(
            ctx,
            name,
            "unexpected statement after the end of the program",
        ),
        _ => syntax_err("unexpected statement after the end of the program"),
    }
}

impl Evaluator {
    /// Takes one statement: the next state, or the failure of the
    /// statement.
    pub fn eval(self, statement: Statement) -> (r: Result<Self, BajzelError>)
        ensures
            step_view(r) == step(self@, statement@),
    {
        match self {
            Evaluator::Started(ctx) => state_started(ctx, statement),
            Evaluator::DefiningFields(ctx) => state_defining_fields(ctx, statement),
            Evaluator::DefiningFieldAttr(ctx) => state_defining_field_attr(ctx, statement),
            Evaluator::UpdatingFieldAttrs(ctx) => state_updating_field_attrs(ctx, statement),
            Evaluator::DefiningGenerator(ctx) => state_defining_generator(ctx, statement),
            Evaluator::Finished(ctx) => state_finished(ctx, statement),
        }
    }
}

/// Evaluates a program to its environment.
pub fn evaluate_program(program: Program) -> (r: Result<ProgramEnv, BajzelError>)
    ensures
        env_view(r) == evaluated(program@),
        r matches Ok(env) ==> env@.valid() && env@.groups.len() >= 1 && env@.gen is Some,
{
    proof {
        crate::evaluator::laws::lemma_evaluated_in_order(program@);
    }
    let ghost stmts = program@;
    let statements = program.0;
    let ghost items = statements@;
    let mut evaluator = Evaluator::Started(ProgramEnv::new());
    for statement in it: statements.into_iter()
        invariant
            it.seq() == items,
            stmts == program@,
            stmts == crate::parser::statements_view(items),
            Ok::<EvaluatorView, BajzelErrorView>(evaluator@) == state_after(
                stmts,
                it.index() as nat,
            ),
    {
        match evaluator.eval(statement) {
            Ok(next) => {
                evaluator = next;
            },
            Err(e) => {
                proof {
                    let n = it.index();
                    assert(0 <= n < items.len());
                    assert(statement == items[n]);
                    assert(stmts[n] == statement@);
                    assert(state_after(stmts, (n + 1) as nat) == Err::<
                        EvaluatorView,
                        BajzelErrorView,
                    >(e@));
                    lemma_failure_stays(stmts, (n + 1) as nat, stmts.len());
                }
                return Err(e);
            },
        }
    }
    match evaluator {
        Evaluator::Finished(ctx) => Ok(ctx),
        _ => Err(BajzelError::ProgramNotFinished),
    }
}

} // verus!
