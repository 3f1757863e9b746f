//! What holds of every evaluation.

use crate::error::{syntax, BajzelErrorView};
use crate::evaluator::structure::lemma_first_with_alias;
use crate::evaluator::{
    distinct_names, evaluated, group_position, lemma_failure_stays, lemma_group_position,
    state_after, step, EvaluatorView, GroupView, ProgramEnvView,
};
use crate::parser::ExprView;
use crate::parser::StatementView;
use vstd::prelude::*;

verus! {

/// A program whose first statement is not `DEFINE` fails with the syntax
/// error that asks for a `DEFINE` section, whatever follows.
pub proof fn lemma_define_comes_first(stmts: Seq<StatementView>)
    requires
        stmts.len() > 0,
        !(stmts[0] is StartGroupDefinition),
    ensures
        evaluated(stmts) == Err::<ProgramEnvView, BajzelErrorView>(
            syntax("at least one DEFINE section is required"@),
        ),
{
    assert(state_after(stmts, 0) == Ok::<EvaluatorView, BajzelErrorView>(
        EvaluatorView::Started(ProgramEnvView::initial()),
    ));
    assert(state_after(stmts, 1) == step(
        EvaluatorView::Started(ProgramEnvView::initial()),
        stmts[0],
    ));
    lemma_failure_stays(stmts, 1, stmts.len());
}

/// A program without statements is not finished.
pub proof fn lemma_empty_program()
    ensures
        evaluated(Seq::<StatementView>::empty()) == Err::<ProgramEnvView, BajzelErrorView>(
            BajzelErrorView::ProgramNotFinished,
        ),
{
}

/// A state with a generator is followed only by states with a generator,
/// and never by the first state.
pub proof fn lemma_generator_stays(state: EvaluatorView, s: StatementView)
    requires
        state.env().gen is Some,
        !(state is Started),
    ensures
        step(state, s) matches Ok(next) ==> next.env().gen is Some && !(next is Started),
{
}

/// The first `GENERATE` that succeeds defines the generator.
pub proof fn lemma_generator_defined(state: EvaluatorView, s: StatementView)
    requires
        s is StartGeneratorDefinition,
    ensures
        step(state, s) matches Ok(next) ==> next.env().gen is Some && !(next is Started),
{
}

/// Once a `GENERATE` statement was evaluated, every later state holds a
/// generator.
pub proof fn lemma_generator_after(stmts: Seq<StatementView>, i: int, n: nat)
    requires
        0 <= i < n <= stmts.len(),
        stmts[i] is StartGeneratorDefinition,
    ensures
        state_after(stmts, n) matches Ok(state) ==> state.env().gen is Some && !(state is Started),
    decreases n,
{
    if let Ok(before) = state_after(stmts, (n - 1) as nat) {
        if n - 1 == i {
            lemma_generator_defined(before, stmts[i]);
        } else {
            lemma_generator_after(stmts, i, (n - 1) as nat);
            lemma_generator_stays(before, stmts[n - 1]);
        }
    }
}

/// A second `GENERATE` is refused wherever it stands: with a generator
/// defined, the statement fails with the syntax error that allows a single
/// `GENERATE` section.
pub proof fn lemma_second_generator_refused(state: EvaluatorView, s: StatementView)
    requires
        state.env().gen is Some,
        !(state is Started),
        s is StartGeneratorDefinition,
    ensures
        step(state, s) == Err::<EvaluatorView, BajzelErrorView>(
            syntax("single GENERATE section allowed"@),
        ),
{
}

/// A program with two `GENERATE` statements fails. Where the statements
/// before the second one are evaluated without failure, the failure is the
/// syntax error that allows a single `GENERATE` section.
pub proof fn lemma_single_generator(stmts: Seq<StatementView>, i: int, j: int)
    requires
        0 <= i < j < stmts.len(),
        stmts[i] is StartGeneratorDefinition,
        stmts[j] is StartGeneratorDefinition,
    ensures
        evaluated(stmts) is Err,
        state_after(stmts, j as nat) is Ok ==> evaluated(stmts) == Err::<
            ProgramEnvView,
            BajzelErrorView,
        >(syntax("single GENERATE section allowed"@)),
{
    match state_after(stmts, j as nat) {
        Ok(state) => {
            lemma_generator_after(stmts, i, j as nat);
            lemma_second_generator_refused(state, stmts[j]);
            assert(state_after(stmts, (j + 1) as nat) == step(state, stmts[j]));
            lemma_failure_stays(stmts, (j + 1) as nat, stmts.len());
        },
        Err(_) => {
            lemma_failure_stays(stmts, j as nat, stmts.len());
        },
    }
}

/// Groups that keep their names are found where they were.
pub proof fn lemma_position_by_names(a: Seq<GroupView>, b: Seq<GroupView>, name: Seq<char>, from: int)
    requires
        0 <= from,
        a.len() == b.len(),
        forall|k: int| 0 <= k < a.len() ==> (#[trigger] a[k]).name == (#[trigger] b[k]).name,
    ensures
        group_position(a, name, from) == group_position(b, name, from),
    decreases a.len() - from,
{
    if from < a.len() {
        assert(a[from].name == b[from].name);
        if a[from].name != name {
            lemma_position_by_names(a, b, name, from + 1);
        }
    }
}

/// A new group keeps the names distinct and is the current one.
pub proof fn lemma_with_group_valid(env: ProgramEnvView, name: Seq<char>)
    requires
        distinct_names(env.groups),
    ensures
        env.with_group(name).valid(),
        env.with_group(name).groups.len() >= 1,
        env.with_group(name).gen == env.gen,
{
    let next = env.with_group(name);
    lemma_group_position(env.groups, name, 0);
    lemma_group_position(next.groups, name, 0);
    match env.position(name) {
        Some(i) => {
            assert(next.groups[i].name == name);
        },
        None => {
            assert(next.groups[env.groups.len() as int].name == name);
        },
    }
}

/// A step that keeps the groups' names keeps the environment valid.
pub proof fn lemma_same_names_valid(env: ProgramEnvView, next: ProgramEnvView)
    requires
        env.valid(),
        next.cur_group == env.cur_group,
        next.groups.len() == env.groups.len(),
        forall|k: int|
            0 <= k < env.groups.len() ==> (#[trigger] env.groups[k]).name
                == (#[trigger] next.groups[k]).name,
    ensures
        next.valid(),
{
    if let Some(name) = env.cur_group {
        lemma_position_by_names(env.groups, next.groups, name, 0);
    }
    assert forall|i: int, j: int| 0 <= i < j < next.groups.len() implies (#[trigger] next.groups[i]).name
        != (#[trigger] next.groups[j]).name by {
        assert(env.groups[i].name == next.groups[i].name);
        assert(env.groups[j].name == next.groups[j].name);
    }
}

/// What holds of every state that evaluation reaches: the environment is
/// valid; behind the first state there is a group; where the generator is
/// defined or the program is finished, there is a generator.
pub open spec fn in_order(state: EvaluatorView) -> bool {
    &&& state.env().valid()
    &&& !(state is Started) ==> state.env().groups.len() >= 1
    &&& (state is DefiningGenerator || state is Finished) ==> state.env().gen is Some
}

/// Adding a field keeps the environment valid.
pub proof fn lemma_with_field_valid(
    env: ProgramEnvView,
    def: crate::evaluator::structure::FieldDefinitionView,
    alias: Option<Seq<char>>,
)
    requires
        env.valid(),
    ensures
        env.with_field(def, alias) matches Ok(next) ==> next.valid() && next.groups.len()
            == env.groups.len() && next.gen == env.gen,
{
    if let Ok(next) = env.with_field(def, alias) {
        lemma_group_position(env.groups, env.cur_group->Some_0, 0);
        lemma_same_names_valid(env, next);
    }
}

/// Updating a field keeps the environment valid, and keeps the number of
/// the fields of every group and the alias of every field.
pub proof fn lemma_with_field_update_valid(env: ProgramEnvView, attr: Seq<char>, e: ExprView)
    requires
        env.valid(),
    ensures
        env.with_field_update(attr, e) matches Ok(next) ==> next.valid() && next.groups.len()
            == env.groups.len() && next.gen == env.gen && forall|g: int|
            0 <= g < env.groups.len() ==> (#[trigger] next.groups[g]).fields.len()
                == env.groups[g].fields.len() && forall|k: int|
                0 <= k < env.groups[g].fields.len() ==> (#[trigger] next.groups[g].fields[k]).alias
                    == env.groups[g].fields[k].alias,
{
    if let Ok(next) = env.with_field_update(attr, e) {
        let (i, k) = env.current_field()->Ok_0;
        lemma_group_position(env.groups, env.cur_group->Some_0, 0);
        lemma_first_with_alias(env.groups[i].fields, env.cur_field->Some_0, 0);
        lemma_same_names_valid(env, next);
    }
}

/// Every step keeps the states in order.
pub proof fn lemma_step_in_order(state: EvaluatorView, s: StatementView)
    requires
        in_order(state),
    ensures
        step(state, s) matches Ok(next) ==> in_order(next),
{
    let env = state.env();
    let cleared = env.without_current_field();
    lemma_same_names_valid(env, cleared);
    match s {
        StatementView::StartGroupDefinition(name) => {
            lemma_with_group_valid(env, name);
            lemma_with_group_valid(cleared, name);
        },
        StatementView::DefineConstField(literal, alias) => {
            if let Ok(def) = crate::evaluator::constant_field(literal) {
                lemma_with_field_valid(env, def, alias);
                lemma_with_field_valid(cleared, def, alias);
                if let Ok(next) = env.with_field(def, alias) {
                    lemma_same_names_valid(next, next.without_current_field());
                }
                if let Ok(next) = cleared.with_field(def, alias) {
                    lemma_same_names_valid(next, next.without_current_field());
                }
            }
        },
        StatementView::DefineVariableField(kind, alias) => {
            if let Some(def) = crate::evaluator::variable_field(kind) {
                lemma_with_field_valid(env, def, alias);
                lemma_with_field_valid(cleared, def, alias);
                if let Ok(next) = env.with_field(def, alias) {
                    lemma_same_names_valid(next, next.without_current_field());
                }
                if let Ok(next) = cleared.with_field(def, alias) {
                    lemma_same_names_valid(next, next.without_current_field());
                }
            }
        },
        StatementView::MakeCurrentField(name) => {
            lemma_same_names_valid(env, env.with_current_field(name));
            lemma_same_names_valid(cleared, cleared.with_current_field(name));
        },
        StatementView::UpdateField(attr, e) => {
            lemma_with_field_update_valid(env, attr, e);
        },
        StatementView::StartGeneratorDefinition(name) => {
            if let Ok(next) = env.with_generator(name) {
                lemma_same_names_valid(env, next);
            }
            if let Ok(next) = cleared.with_generator(name) {
                lemma_same_names_valid(cleared, next);
            }
        },
        StatementView::UpdateParam(name, e) => {
            if let Ok(next) = env.with_param(name, e) {
                lemma_same_names_valid(env, next);
            }
        },
        _ => {},
    }
}

/// Every state that evaluation reaches is in order.
pub proof fn lemma_states_in_order(stmts: Seq<StatementView>, n: nat)
    ensures
        state_after(stmts, n) matches Ok(state) ==> in_order(state),
    decreases n,
{
    if n > 0 {
        lemma_states_in_order(stmts, (n - 1) as nat);
        if let Ok(before) = state_after(stmts, (n - 1) as nat) {
            lemma_step_in_order(before, stmts[n - 1]);
        }
    }
}

/// The environment of a program that was evaluated is valid and holds a
/// group or more and the generator.
pub proof fn lemma_evaluated_in_order(stmts: Seq<StatementView>)
    ensures
        evaluated(stmts) matches Ok(env) ==> env.valid() && env.groups.len() >= 1 && env.gen
            is Some,
{
    lemma_states_in_order(stmts, stmts.len());
}

} // verus!
