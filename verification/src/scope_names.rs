//! The names that a scope declares, and the parameters of functions.
use vstd::prelude::*;

use crate::ast::{
    ArrayBindingItem, BindingPattern, BindingTarget, Expression, Statement, VariableKind,
};
use crate::compiler::texts;
use crate::rules::{
    array_item_names, case_var_names, is_rest_parameter, object_item_names, optional_var_names,
    parameters, pattern_names, statement_var_names, target_names, var_names,
};
use crate::text::str_eq;

verus! {

/// Add the names that a pattern binds to a list.
pub(crate) fn collect_pattern_names(pattern: &BindingPattern, out: &mut Vec<String>)
    ensures
        texts(final(out)@) == texts(old(out)@) + pattern_names(*pattern),
    decreases *pattern, 0int, 0int,
{
    match pattern {
        BindingPattern::Array(items) => {
            let mut i: usize = 0;
            assert(texts(out@) + array_item_names(*items, 0) == texts(old(out)@)
                + array_item_names(*items, 0));
            while i < items.len()
                invariant
                    0 <= i <= items@.len(),
                    decreases_to!(*pattern => *items),
                    texts(out@) + array_item_names(*items, i as int) == texts(old(out)@)
                        + array_item_names(*items, 0),
                decreases items@.len() - i,
            {
                let ghost before = out@;
                let ghost rest = array_item_names(*items, i + 1);
                assert(decreases_to!(*items => items@[i as int]));
                match &items[i] {
                    ArrayBindingItem::Hole => {
                        assert(Seq::<Seq<char>>::empty() + rest =~= rest);
                    },
                    ArrayBindingItem::Binding { target, .. } => {
                        collect_target_names(target, out);
                    },
                    ArrayBindingItem::Rest { name } => {
                        out.push(name.clone());
                        assert(texts(out@) =~= texts(before) + seq![name@]);
                    },
                }
                assert(texts(out@) + rest =~= texts(before) + array_item_names(*items, i as int));
                i += 1;
            }
            assert(texts(out@) + Seq::<Seq<char>>::empty() =~= texts(out@));
        },
        BindingPattern::Object(items) => {
            let mut i: usize = 0;
            while i < items.len()
                invariant
                    0 <= i <= items@.len(),
                    decreases_to!(*pattern => *items),
                    texts(out@) + object_item_names(*items, i as int) == texts(old(out)@)
                        + object_item_names(*items, 0),
                decreases items@.len() - i,
            {
                let ghost before = out@;
                assert(decreases_to!(*items => items@[i as int]));
                collect_target_names(&items[i].target, out);
                assert(texts(out@) + object_item_names(*items, i + 1) =~= texts(before)
                    + object_item_names(*items, i as int));
                i += 1;
            }
            assert(texts(out@) + Seq::<Seq<char>>::empty() =~= texts(out@));
        },
    }
}

fn collect_target_names(target: &BindingTarget, out: &mut Vec<String>)
    ensures
        texts(final(out)@) == texts(old(out)@) + target_names(*target),
    decreases *target, 0int, 0int,
{
    match target {
        BindingTarget::Identifier(name) => {
            out.push(name.clone());
            assert(texts(out@) =~= texts(old(out)@) + seq![name@]);
        },
        BindingTarget::Pattern(inner) => collect_pattern_names(inner, out),
    }
}

/// Add the names that `var` declares in statements to a list. Does not descend
/// into function bodies.
pub(crate) fn collect_var_names(stmts: &Vec<Statement>, out: &mut Vec<String>)
    ensures
        texts(final(out)@) == texts(old(out)@) + var_names(*stmts, 0),
    decreases *stmts, 1int, stmts@.len(),
{
    let mut i: usize = 0;
    while i < stmts.len()
        invariant
            0 <= i <= stmts@.len(),
            texts(out@) + var_names(*stmts, i as int) == texts(old(out)@) + var_names(*stmts, 0),
        decreases stmts@.len() - i,
    {
        let ghost before = out@;
        collect_statement_var_names(&stmts[i], out);
        assert(texts(out@) + var_names(*stmts, i + 1) =~= texts(before) + var_names(
            *stmts,
            i as int,
        ));
        i += 1;
    }
    assert(texts(out@) + Seq::<Seq<char>>::empty() =~= texts(out@));
}

fn collect_optional_var_names(stmts: &Option<Vec<Statement>>, out: &mut Vec<String>)
    ensures
        texts(final(out)@) == texts(old(out)@) + optional_var_names(*stmts),
    decreases *stmts, 0int, 0int,
{
    match stmts {
        Some(v) => collect_var_names(v, out),
        None => {
            assert(texts(out@) + Seq::<Seq<char>>::empty() =~= texts(out@));
        },
    }
}

fn collect_statement_var_names(stmt: &Statement, out: &mut Vec<String>)
    ensures
        texts(final(out)@) == texts(old(out)@) + statement_var_names(*stmt),
    decreases *stmt, 0int, 0int,
{
    let ghost start = texts(out@);
    assert(start + Seq::<Seq<char>>::empty() =~= start);
    match stmt {
        Statement::Let { name, kind, .. } => {
            if *kind == VariableKind::Var {
                out.push(name.clone());
                assert(texts(out@) =~= start + seq![name@]);
            }
        },
        Statement::LetPattern { pattern, kind, .. } => {
            if *kind == VariableKind::Var {
                collect_pattern_names(pattern, out);
            }
        },
        Statement::Block(body) => collect_var_names(body, out),
        Statement::MultiLet(body) => collect_var_names(body, out),
        Statement::While { body, .. } => collect_var_names(body, out),
        Statement::DoWhile { body, .. } => collect_var_names(body, out),
        Statement::For { init, body, .. } => {
            if let Some(first) = init {
                collect_statement_var_names(first, out);
            }
            let ghost middle = texts(out@);
            collect_var_names(body, out);
            assert(texts(out@) =~= start + statement_var_names(*stmt));
        },
        Statement::ForOf { body, .. } => collect_var_names(body, out),
        Statement::ForIn { body, .. } => collect_var_names(body, out),
        Statement::Labeled { statement, .. } => collect_statement_var_names(statement, out),
        Statement::Try { try_block, catch_block, finally_block, .. } => {
            collect_var_names(try_block, out);
            collect_optional_var_names(catch_block, out);
            collect_optional_var_names(finally_block, out);
            assert(texts(out@) =~= start + statement_var_names(*stmt));
        },
        Statement::Switch { cases, .. } => {
            let mut i: usize = 0;
            while i < cases.len()
                invariant
                    0 <= i <= cases@.len(),
                    decreases_to!(*stmt => *cases),
                    texts(out@) + case_var_names(*cases, i as int) == start + case_var_names(
                        *cases,
                        0,
                    ),
                decreases cases@.len() - i,
            {
                let ghost before = out@;
                assert(decreases_to!(*cases => cases@[i as int]));
                collect_var_names(&cases[i].consequent, out);
                assert(texts(out@) + case_var_names(*cases, i + 1) =~= texts(before)
                    + case_var_names(*cases, i as int));
                i += 1;
            }
            assert(texts(out@) + Seq::<Seq<char>>::empty() =~= texts(out@));
        },
        Statement::Expression(e) => match e {
            Expression::If { consequence, alternative, .. } => {
                collect_var_names(consequence, out);
                collect_optional_var_names(alternative, out);
                assert(texts(out@) =~= start + statement_var_names(*stmt));
            },
            _ => {},
        },
        _ => {},
    }
}

/// The parameters of a function, and the position of its rest parameter.
pub(crate) fn normalize_parameters(list: &Vec<String>) -> (r: Result<(Vec<String>, Option<usize>), String>)
    ensures
        match r {
            Ok((names, rest)) => {
                let p = parameters(list@, list@.len() as int);
                p.err is None && texts(names@) == p.names && rest == p.rest
            },
            Err(e) => parameters(list@, list@.len() as int).err == Some(e@),
        },
{
    let mut names: Vec<String> = Vec::new();
    let mut rest: Option<usize> = None;
    let mut i: usize = 0;
    assert(texts(names@) =~= Seq::empty());
    proof {
        reveal_strlit("...");
    }
    while i < list.len()
        invariant
            0 <= i <= list@.len(),
            "..."@.len() == 3,
            parameters(list@, i as int).err is None,
            texts(names@) == parameters(list@, i as int).names,
            rest == parameters(list@, i as int).rest,
        decreases list@.len() - i,
    {
        let p = list[i].as_str();
        let n: usize = p.unicode_len();
        let ghost before = names@;
        let is_rest: bool = n >= 3 && str_eq(p.substring_char(0, 3), "...");
        assert(n >= 3 ==> p@.subrange(0, 3) =~= p@.take(3));
        assert(is_rest == is_rest_parameter(p@));
        if is_rest {
            if n == 3 {
                proof {
                    lemma_parameter_error_stays(list@, i + 1, list@.len() as int);
                }
                return Err("invalid rest parameter name".to_owned());
            }
            if i + 1 != list.len() {
                proof {
                    lemma_parameter_error_stays(list@, i + 1, list@.len() as int);
                }
                return Err("rest parameter must be last".to_owned());
            }
            rest = Some(i);
            let name = p.substring_char(3, n).to_owned();
            assert(name@ =~= p@.skip(3));
            names.push(name);
            assert(texts(names@) =~= texts(before).push(p@.skip(3)));
        } else {
            names.push(p.to_owned());
            assert(texts(names@) =~= texts(before).push(p@));
        }
        i += 1;
    }
    Ok((names, rest))
}

proof fn lemma_parameter_error_stays(list: Seq<String>, m: int, n: int)
    requires
        0 <= m <= n,
        parameters(list, m).err is Some,
    ensures
        parameters(list, n).err == parameters(list, m).err,
    decreases n - m,
{
    if m < n {
        lemma_parameter_error_stays(list, m, n - 1);
    }
}

} // verus!
