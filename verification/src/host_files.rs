//! Whether lowered code reaches the host's file functions, directly or through
//! the scripts it calls, and which creation-code script calls the host must
//! run once its files are available.

use std::collections::HashMap;

use vstd::prelude::*;
use vstd::hash_map::StringHashMap;
use vstd::hash_set::StringHashSet;

use crate::lowered::{LoweredLogicEntry, LoweredLogicExpr, LoweredLogicStatement};
use crate::model::{RuntimeInstance, RuntimeRoomState};
use crate::text::str_eq;

verus! {

/// The GML functions that touch files through the host.
pub open spec fn spec_is_host_file_function(name: Seq<char>) -> bool {
    name == "file_exists"@ || name == "file_bin_open"@ || name == "file_bin_read_byte"@ || name
        == "file_bin_write_byte"@ || name == "file_bin_close"@ || name == "file_delete"@
}

/// Number of scripts of `entries` not yet in `seen`.
pub open spec fn unseen_scripts<E>(entries: Map<Seq<char>, E>, seen: Set<Seq<char>>) -> nat {
    entries.dom().difference(seen).len()
}

/// Result and updated set of visited scripts of the search for a host file
/// function in `expr`, visiting each script at most once. `fuel` bounds the
/// depth of script calls; any fuel at least the number of unvisited scripts
/// gives the search's result.
pub open spec fn spec_expr_host<N>(
    expr: LoweredLogicExpr<N>,
    entries: Map<Seq<char>, LoweredLogicEntry<N>>,
    seen: Set<Seq<char>>,
    fuel: nat,
) -> (bool, Set<Seq<char>>)
    decreases fuel, expr, 0nat,
{
    match expr {
        LoweredLogicExpr::Call { name, args } => spec_call_host(name@, args@, entries, seen, fuel),
        LoweredLogicExpr::UnaryExpr { child, .. } => spec_expr_host(*child, entries, seen, fuel),
        LoweredLogicExpr::BinaryExpr { left, right, .. } => {
            let (found, seen1) = spec_expr_host(*left, entries, seen, fuel);
            if found {
                (true, seen1)
            } else {
                spec_expr_host(*right, entries, seen1, fuel)
            }
        },
        LoweredLogicExpr::MemberAccess { target, .. } => spec_expr_host(*target, entries, seen, fuel),
        LoweredLogicExpr::IndexAccess { target, index } => {
            let (found, seen1) = spec_expr_host(*target, entries, seen, fuel);
            if found {
                (true, seen1)
            } else {
                spec_expr_host(*index, entries, seen1, fuel)
            }
        },
        _ => (false, seen),
    }
}

/// The search of [`spec_expr_host`] on a call of `name` with `args`: a host
/// file function is found at once; otherwise the arguments are searched, then
/// the script called, if it is one and has not been visited.
pub open spec fn spec_call_host<N>(
    name: Seq<char>,
    args: Seq<LoweredLogicExpr<N>>,
    entries: Map<Seq<char>, LoweredLogicEntry<N>>,
    seen: Set<Seq<char>>,
    fuel: nat,
) -> (bool, Set<Seq<char>>)
    decreases fuel, args, 1nat,
{
    if spec_is_host_file_function(name) {
        (true, seen)
    } else {
        let (found, seen1) = spec_exprs_host(args, entries, seen, fuel);
        if found {
            (true, seen1)
        } else if !entries.contains_key(name) || seen1.contains(name) {
            (false, seen1)
        } else if fuel == 0 {
            (false, seen1.insert(name))
        } else {
            spec_stmts_host(entries[name].statements@, entries, seen1.insert(name), (fuel - 1) as nat)
        }
    }
}

/// The search of [`spec_expr_host`] over a sequence of expressions, in order,
/// stopping at the first that reaches a host file function.
pub open spec fn spec_exprs_host<N>(
    exprs: Seq<LoweredLogicExpr<N>>,
    entries: Map<Seq<char>, LoweredLogicEntry<N>>,
    seen: Set<Seq<char>>,
    fuel: nat,
) -> (bool, Set<Seq<char>>)
    decreases fuel, exprs, 0nat,
{
    if exprs.len() == 0 {
        (false, seen)
    } else {
        let (found, seen1) = spec_exprs_host(exprs.drop_last(), entries, seen, fuel);
        if found {
            (true, seen1)
        } else {
            spec_expr_host(exprs.last(), entries, seen1, fuel)
        }
    }
}

/// The search of [`spec_expr_host`] on one statement.
pub open spec fn spec_stmt_host<N>(
    statement: LoweredLogicStatement<N>,
    entries: Map<Seq<char>, LoweredLogicEntry<N>>,
    seen: Set<Seq<char>>,
    fuel: nat,
) -> (bool, Set<Seq<char>>)
    decreases fuel, statement, 0nat,
{
    match statement {
        LoweredLogicStatement::Assignment { target, value } => {
            let (found, seen1) = spec_expr_host(target, entries, seen, fuel);
            if found {
                (true, seen1)
            } else {
                spec_expr_host(value, entries, seen1, fuel)
            }
        },
        LoweredLogicStatement::Conditional { condition, then_branch, else_branch } => {
            let (found, seen1) = spec_expr_host(condition, entries, seen, fuel);
            if found {
                (true, seen1)
            } else {
                let (found2, seen2) = spec_stmts_host(then_branch@, entries, seen1, fuel);
                if found2 {
                    (true, seen2)
                } else {
                    spec_stmts_host(else_branch@, entries, seen2, fuel)
                }
            }
        },
        LoweredLogicStatement::FunctionCall { name, args } => spec_call_host(
            name@,
            args@,
            entries,
            seen,
            fuel,
        ),
        LoweredLogicStatement::With { target, body } => {
            let (found, seen1) = spec_expr_host(target, entries, seen, fuel);
            if found {
                (true, seen1)
            } else {
                spec_stmts_host(body@, entries, seen1, fuel)
            }
        },
        LoweredLogicStatement::For { init, condition, step, body } => {
            let (f1, s1) = spec_expr_host(init, entries, seen, fuel);
            if f1 {
                (true, s1)
            } else {
                let (f2, s2) = spec_expr_host(condition, entries, s1, fuel);
                if f2 {
                    (true, s2)
                } else {
                    let (f3, s3) = spec_expr_host(step, entries, s2, fuel);
                    if f3 {
                        (true, s3)
                    } else {
                        spec_stmts_host(body@, entries, s3, fuel)
                    }
                }
            }
        },
        LoweredLogicStatement::Repeat { count, body } => {
            let (found, seen1) = spec_expr_host(count, entries, seen, fuel);
            if found {
                (true, seen1)
            } else {
                spec_stmts_host(body@, entries, seen1, fuel)
            }
        },
        LoweredLogicStatement::While { condition, body } => {
            let (found, seen1) = spec_expr_host(condition, entries, seen, fuel);
            if found {
                (true, seen1)
            } else {
                spec_stmts_host(body@, entries, seen1, fuel)
            }
        },
        _ => (false, seen),
    }
}

/// The search of [`spec_stmt_host`] over a block, in order, stopping at the
/// first statement that reaches a host file function.
pub open spec fn spec_stmts_host<N>(
    statements: Seq<LoweredLogicStatement<N>>,
    entries: Map<Seq<char>, LoweredLogicEntry<N>>,
    seen: Set<Seq<char>>,
    fuel: nat,
) -> (bool, Set<Seq<char>>)
    decreases fuel, statements, 0nat,
{
    if statements.len() == 0 {
        (false, seen)
    } else {
        let (found, seen1) = spec_stmts_host(statements.drop_last(), entries, seen, fuel);
        if found {
            (true, seen1)
        } else {
            spec_stmt_host(statements.last(), entries, seen1, fuel)
        }
    }
}

/// Whether `name` is one of the GML functions that touch files through the host.
pub fn is_host_file_function(name: &str) -> (r: bool)
    ensures
        r == spec_is_host_file_function(name@),
{
    str_eq(name, "file_exists") || str_eq(name, "file_bin_open") || str_eq(
        name,
        "file_bin_read_byte",
    ) || str_eq(name, "file_bin_write_byte") || str_eq(name, "file_bin_close") || str_eq(
        name,
        "file_delete",
    )
}

proof fn lemma_unseen_insert<E>(entries: Map<Seq<char>, E>, seen: Set<Seq<char>>, name: Seq<char>)
    requires
        entries.dom().finite(),
        entries.contains_key(name),
        !seen.contains(name),
    ensures
        unseen_scripts(entries, seen.insert(name)) + 1 == unseen_scripts(entries, seen),
{
    assert(entries.dom().difference(seen.insert(name)) =~= entries.dom().difference(seen).remove(
        name,
    ));
}

proof fn lemma_unseen_grow<E>(entries: Map<Seq<char>, E>, seen: Set<Seq<char>>, more: Set<Seq<char>>)
    requires
        entries.dom().finite(),
        seen.subset_of(more),
    ensures
        unseen_scripts(entries, more) <= unseen_scripts(entries, seen),
{
    vstd::set_lib::lemma_len_subset(entries.dom().difference(more), entries.dom().difference(seen));
}

proof fn lemma_exprs_host_found_prefix<N>(
    exprs: Seq<LoweredLogicExpr<N>>,
    entries: Map<Seq<char>, LoweredLogicEntry<N>>,
    seen: Set<Seq<char>>,
    fuel: nat,
    k: int,
    out: Set<Seq<char>>,
)
    requires
        0 <= k <= exprs.len(),
        spec_exprs_host(exprs.take(k), entries, seen, fuel) == (true, out),
    ensures
        spec_exprs_host(exprs, entries, seen, fuel) == (true, out),
    decreases exprs.len(),
{
    if k == exprs.len() {
        assert(exprs.take(k) =~= exprs);
    } else {
        assert(exprs.drop_last().take(k) =~= exprs.take(k));
        lemma_exprs_host_found_prefix(exprs.drop_last(), entries, seen, fuel, k, out);
    }
}

proof fn lemma_stmts_host_found_prefix<N>(
    statements: Seq<LoweredLogicStatement<N>>,
    entries: Map<Seq<char>, LoweredLogicEntry<N>>,
    seen: Set<Seq<char>>,
    fuel: nat,
    k: int,
    out: Set<Seq<char>>,
)
    requires
        0 <= k <= statements.len(),
        spec_stmts_host(statements.take(k), entries, seen, fuel) == (true, out),
    ensures
        spec_stmts_host(statements, entries, seen, fuel) == (true, out),
    decreases statements.len(),
{
    if k == statements.len() {
        assert(statements.take(k) =~= statements);
    } else {
        assert(statements.drop_last().take(k) =~= statements.take(k));
        lemma_stmts_host_found_prefix(statements.drop_last(), entries, seen, fuel, k, out);
    }
}

/// Shared step of a call of `name` with arguments `args`, as an expression or
/// as a statement.
fn call_references_host_file_functions<N>(
    name: &String,
    args: &Vec<LoweredLogicExpr<N>>,
    script_entries: &StringHashMap<LoweredLogicEntry<N>>,
    seen_scripts: &mut StringHashSet,
) -> (r: bool)
    requires
        script_entries@.dom().finite(),
    ensures
        old(seen_scripts)@.subset_of(final(seen_scripts)@),
        forall|fuel: nat|
            fuel >= unseen_scripts(script_entries@, old(seen_scripts)@) ==> #[trigger] spec_call_host(
                name@,
                args@,
                script_entries@,
                old(seen_scripts)@,
                fuel,
            ) == (r, final(seen_scripts)@),
    decreases unseen_scripts(script_entries@, old(seen_scripts)@), args@, 1nat,
{
    let ghost seen0 = seen_scripts@;
    if is_host_file_function(name) {
        assert forall|fuel: nat| fuel >= unseen_scripts(script_entries@, seen0) implies #[trigger] spec_call_host(
            name@,
            args@,
            script_entries@,
            seen0,
            fuel,
        ) == (true, seen0) by {}
        return true;
    }
    let found = exprs_reference_host_file_functions(args, script_entries, seen_scripts);
    let ghost seen1 = seen_scripts@;
    proof { lemma_unseen_grow(script_entries@, seen0, seen1); }
    if found {
        assert forall|fuel: nat| fuel >= unseen_scripts(script_entries@, seen0) implies #[trigger] spec_call_host(
            name@,
            args@,
            script_entries@,
            seen0,
            fuel,
        ) == (true, seen1) by {
            assert(spec_exprs_host(args@, script_entries@, seen0, fuel) == (true, seen1));
        }
        return true;
    }
    match script_entries.get(name.as_str()) {
        None => {
            assert forall|fuel: nat| fuel >= unseen_scripts(script_entries@, seen0) implies #[trigger] spec_call_host(
                name@,
                args@,
                script_entries@,
                seen0,
                fuel,
            ) == (false, seen1) by {
                assert(spec_exprs_host(args@, script_entries@, seen0, fuel) == (false, seen1));
            }
            false
        },
        Some(entry) => {
            if !seen_scripts.insert(name.clone()) {
                assert(seen_scripts@ =~= seen1);
                assert forall|fuel: nat| fuel >= unseen_scripts(script_entries@, seen0) implies #[trigger] spec_call_host(
                    name@,
                    args@,
                    script_entries@,
                    seen0,
                    fuel,
                ) == (false, seen1) by {
                    assert(spec_exprs_host(args@, script_entries@, seen0, fuel) == (false, seen1));
                }
                return false;
            }
            let ghost seen2 = seen_scripts@;
            proof { lemma_unseen_insert(script_entries@, seen1, name@); }
            let r = statements_reference_host_file_functions(&entry.statements, script_entries, seen_scripts);
            assert forall|fuel: nat| fuel >= unseen_scripts(script_entries@, seen0) implies #[trigger] spec_call_host(
                name@,
                args@,
                script_entries@,
                seen0,
                fuel,
            ) == (r, seen_scripts@) by {
                assert(spec_exprs_host(args@, script_entries@, seen0, fuel) == (false, seen1));
                assert(spec_stmts_host(entry.statements@, script_entries@, seen2, (fuel - 1) as nat) == (
                r, seen_scripts@));
            }
            r
        },
    }
}

/// Whether some expression of `exprs`, searched in order, calls a host file
/// function directly or through unvisited scripts.
fn exprs_reference_host_file_functions<N>(
    exprs: &Vec<LoweredLogicExpr<N>>,
    script_entries: &StringHashMap<LoweredLogicEntry<N>>,
    seen_scripts: &mut StringHashSet,
) -> (r: bool)
    requires
        script_entries@.dom().finite(),
    ensures
        old(seen_scripts)@.subset_of(final(seen_scripts)@),
        forall|fuel: nat|
            fuel >= unseen_scripts(script_entries@, old(seen_scripts)@) ==> #[trigger] spec_exprs_host(
                exprs@,
                script_entries@,
                old(seen_scripts)@,
                fuel,
            ) == (r, final(seen_scripts)@),
    decreases unseen_scripts(script_entries@, old(seen_scripts)@), exprs@, 0nat,
{
    let ghost seen0 = seen_scripts@;
    let mut i: usize = 0;
    while i < exprs.len()
        invariant
            i <= exprs@.len(),
            script_entries@.dom().finite(),
            seen0 == old(seen_scripts)@,
            seen0.subset_of(seen_scripts@),
            forall|fuel: nat|
                fuel >= unseen_scripts(script_entries@, seen0) ==> #[trigger] spec_exprs_host(
                    exprs@.take(i as int),
                    script_entries@,
                    seen0,
                    fuel,
                ) == (false, seen_scripts@),
        decreases exprs@.len() - i,
    {
        let ghost cur = seen_scripts@;
        proof { lemma_unseen_grow(script_entries@, seen0, cur); }
        let found = expr_references_host_file_functions(&exprs[i], script_entries, seen_scripts);
        assert forall|fuel: nat| fuel >= unseen_scripts(script_entries@, seen0) implies #[trigger] spec_exprs_host(
            exprs@.take(i + 1),
            script_entries@,
            seen0,
            fuel,
        ) == (found, seen_scripts@) by {
            assert(exprs@.take(i + 1).drop_last() =~= exprs@.take(i as int));
            assert(exprs@.take(i + 1).last() == exprs@[i as int]);
            assert(spec_exprs_host(exprs@.take(i as int), script_entries@, seen0, fuel) == (false, cur));
            assert(spec_expr_host(exprs@[i as int], script_entries@, cur, fuel) == (found, seen_scripts@));
        }
        if found {
            assert forall|fuel: nat| fuel >= unseen_scripts(script_entries@, seen0) implies #[trigger] spec_exprs_host(
                exprs@,
                script_entries@,
                seen0,
                fuel,
            ) == (true, seen_scripts@) by {
                lemma_exprs_host_found_prefix(exprs@, script_entries@, seen0, fuel, i + 1, seen_scripts@);
            }
            return true;
        }
        i = i + 1;
    }
    assert(exprs@.take(i as int) =~= exprs@);
    false
}

/// Whether `expr` calls a host file function, directly or through a script of
/// `script_entries` not yet in `seen_scripts`; each script entered is added
/// to `seen_scripts` and is not entered again.
pub fn expr_references_host_file_functions<N>(
    expr: &LoweredLogicExpr<N>,
    script_entries: &StringHashMap<LoweredLogicEntry<N>>,
    seen_scripts: &mut StringHashSet,
) -> (r: bool)
    requires
        script_entries@.dom().finite(),
    ensures
        old(seen_scripts)@.subset_of(final(seen_scripts)@),
        forall|fuel: nat|
            fuel >= unseen_scripts(script_entries@, old(seen_scripts)@) ==> #[trigger] spec_expr_host(
                *expr,
                script_entries@,
                old(seen_scripts)@,
                fuel,
            ) == (r, final(seen_scripts)@),
    decreases unseen_scripts(script_entries@, old(seen_scripts)@), expr, 0nat,
{
    match expr {
        LoweredLogicExpr::Call { name, args } => {
            let ghost seen0 = seen_scripts@;
            let r = call_references_host_file_functions(name, args, script_entries, seen_scripts);
            assert forall|fuel: nat| fuel >= unseen_scripts(script_entries@, seen0) implies #[trigger] spec_expr_host(*expr, script_entries@, seen0, fuel) == (r, seen_scripts@) by {
                assert(spec_call_host(name@, args@, script_entries@, seen0, fuel) == (r, seen_scripts@));
            }
            r
        },
        LoweredLogicExpr::UnaryExpr { child, .. } => {
            let ghost seen0 = seen_scripts@;
            let ghost before0 = seen_scripts@;
            proof { lemma_unseen_grow(script_entries@, seen0, before0); }
            let f0 = expr_references_host_file_functions(child, script_entries, seen_scripts);
            assert forall|fuel: nat| fuel >= unseen_scripts(script_entries@, seen0) implies #[trigger] spec_expr_host(*expr, script_entries@, seen0, fuel) == (f0, seen_scripts@) by {
                assert(spec_expr_host(**child, script_entries@, before0, fuel) == (f0, seen_scripts@));
            }
            f0
        },
        LoweredLogicExpr::BinaryExpr { left, right, .. } => {
            let ghost seen0 = seen_scripts@;
            let ghost before0 = seen_scripts@;
            proof { lemma_unseen_grow(script_entries@, seen0, before0); }
            let f0 = expr_references_host_file_functions(left, script_entries, seen_scripts);
            if f0 {
                assert forall|fuel: nat| fuel >= unseen_scripts(script_entries@, seen0) implies #[trigger] spec_expr_host(*expr, script_entries@, seen0, fuel) == (true, seen_scripts@) by {
                    assert(spec_expr_host(**left, script_entries@, before0, fuel) == (f0, seen_scripts@));
                }
                return true;
            }
            let ghost before1 = seen_scripts@;
            proof { lemma_unseen_grow(script_entries@, seen0, before1); }
            let f1 = expr_references_host_file_functions(right, script_entries, seen_scripts);
            assert forall|fuel: nat| fuel >= unseen_scripts(script_entries@, seen0) implies #[trigger] spec_expr_host(*expr, script_entries@, seen0, fuel) == (f1, seen_scripts@) by {
                assert(spec_expr_host(**left, script_entries@, before0, fuel) == (false, before1));
                assert(spec_expr_host(**right, script_entries@, before1, fuel) == (f1, seen_scripts@));
            }
            f1
        },
        LoweredLogicExpr::MemberAccess { target, .. } => {
            let ghost seen0 = seen_scripts@;
            let ghost before0 = seen_scripts@;
            proof { lemma_unseen_grow(script_entries@, seen0, before0); }
            let f0 = expr_references_host_file_functions(target, script_entries, seen_scripts);
            assert forall|fuel: nat| fuel >= unseen_scripts(script_entries@, seen0) implies #[trigger] spec_expr_host(*expr, script_entries@, seen0, fuel) == (f0, seen_scripts@) by {
                assert(spec_expr_host(**target, script_entries@, before0, fuel) == (f0, seen_scripts@));
            }
            f0
        },
        LoweredLogicExpr::IndexAccess { target, index } => {
            let ghost seen0 = seen_scripts@;
            let ghost before0 = seen_scripts@;
            proof { lemma_unseen_grow(script_entries@, seen0, before0); }
            let f0 = expr_references_host_file_functions(target, script_entries, seen_scripts);
            if f0 {
                assert forall|fuel: nat| fuel >= unseen_scripts(script_entries@, seen0) implies #[trigger] spec_expr_host(*expr, script_entries@, seen0, fuel) == (true, seen_scripts@) by {
                    assert(spec_expr_host(**target, script_entries@, before0, fuel) == (f0, seen_scripts@));
                }
                return true;
            }
            let ghost before1 = seen_scripts@;
            proof { lemma_unseen_grow(script_entries@, seen0, before1); }
            let f1 = expr_references_host_file_functions(index, script_entries, seen_scripts);
            assert forall|fuel: nat| fuel >= unseen_scripts(script_entries@, seen0) implies #[trigger] spec_expr_host(*expr, script_entries@, seen0, fuel) == (f1, seen_scripts@) by {
                assert(spec_expr_host(**target, script_entries@, before0, fuel) == (false, before1));
                assert(spec_expr_host(**index, script_entries@, before1, fuel) == (f1, seen_scripts@));
            }
            f1
        },
        _ => false,
    }
}

/// Whether some statement of the block calls a host file function, directly or
/// through scripts, visiting each script at most once.
pub fn statements_reference_host_file_functions<N>(
    statements: &Vec<LoweredLogicStatement<N>>,
    script_entries: &StringHashMap<LoweredLogicEntry<N>>,
    seen_scripts: &mut StringHashSet,
) -> (r: bool)
    requires
        script_entries@.dom().finite(),
    ensures
        old(seen_scripts)@.subset_of(final(seen_scripts)@),
        forall|fuel: nat|
            fuel >= unseen_scripts(script_entries@, old(seen_scripts)@) ==> #[trigger] spec_stmts_host(
                statements@,
                script_entries@,
                old(seen_scripts)@,
                fuel,
            ) == (r, final(seen_scripts)@),
    decreases unseen_scripts(script_entries@, old(seen_scripts)@), statements@, 0nat,
{
    let ghost seen0 = seen_scripts@;
    let mut i: usize = 0;
    while i < statements.len()
        invariant
            i <= statements@.len(),
            script_entries@.dom().finite(),
            seen0 == old(seen_scripts)@,
            seen0.subset_of(seen_scripts@),
            forall|fuel: nat|
                fuel >= unseen_scripts(script_entries@, seen0) ==> #[trigger] spec_stmts_host(
                    statements@.take(i as int),
                    script_entries@,
                    seen0,
                    fuel,
                ) == (false, seen_scripts@),
        decreases statements@.len() - i,
    {
        let ghost cur = seen_scripts@;
        proof { lemma_unseen_grow(script_entries@, seen0, cur); }
        let found = statement_references_host_file_functions(&statements[i], script_entries, seen_scripts);
        assert forall|fuel: nat| fuel >= unseen_scripts(script_entries@, seen0) implies #[trigger] spec_stmts_host(
            statements@.take(i + 1),
            script_entries@,
            seen0,
            fuel,
        ) == (found, seen_scripts@) by {
            assert(statements@.take(i + 1).drop_last() =~= statements@.take(i as int));
            assert(statements@.take(i + 1).last() == statements@[i as int]);
            assert(spec_stmts_host(statements@.take(i as int), script_entries@, seen0, fuel) == (false, cur));
            assert(spec_stmt_host(statements@[i as int], script_entries@, cur, fuel) == (found, seen_scripts@));
        }
        if found {
            assert forall|fuel: nat| fuel >= unseen_scripts(script_entries@, seen0) implies #[trigger] spec_stmts_host(
                statements@,
                script_entries@,
                seen0,
                fuel,
            ) == (true, seen_scripts@) by {
                lemma_stmts_host_found_prefix(statements@, script_entries@, seen0, fuel, i + 1, seen_scripts@);
            }
            return true;
        }
        i = i + 1;
    }
    assert(statements@.take(i as int) =~= statements@);
    false
}

/// Whether the statement calls a host file function, directly or through
/// scripts, visiting each script at most once.
pub fn statement_references_host_file_functions<N>(
    statement: &LoweredLogicStatement<N>,
    script_entries: &StringHashMap<LoweredLogicEntry<N>>,
    seen_scripts: &mut StringHashSet,
) -> (r: bool)
    requires
        script_entries@.dom().finite(),
    ensures
        old(seen_scripts)@.subset_of(final(seen_scripts)@),
        forall|fuel: nat|
            fuel >= unseen_scripts(script_entries@, old(seen_scripts)@) ==> #[trigger] spec_stmt_host(
                *statement,
                script_entries@,
                old(seen_scripts)@,
                fuel,
            ) == (r, final(seen_scripts)@),
    decreases unseen_scripts(script_entries@, old(seen_scripts)@), statement, 0nat,
{
    match statement {
        LoweredLogicStatement::Assignment { target, value } => {
            let ghost seen0 = seen_scripts@;
            let ghost before0 = seen_scripts@;
            proof { lemma_unseen_grow(script_entries@, seen0, before0); }
            let f0 = expr_references_host_file_functions(target, script_entries, seen_scripts);
            if f0 {
                assert forall|fuel: nat| fuel >= unseen_scripts(script_entries@, seen0) implies #[trigger] spec_stmt_host(*statement, script_entries@, seen0, fuel) == (true, seen_scripts@) by {
                    assert(spec_expr_host(*target, script_entries@, before0, fuel) == (f0, seen_scripts@));
                }
                return true;
            }
            let ghost before1 = seen_scripts@;
            proof { lemma_unseen_grow(script_entries@, seen0, before1); }
            let f1 = expr_references_host_file_functions(value, script_entries, seen_scripts);
            assert forall|fuel: nat| fuel >= unseen_scripts(script_entries@, seen0) implies #[trigger] spec_stmt_host(*statement, script_entries@, seen0, fuel) == (f1, seen_scripts@) by {
                assert(spec_expr_host(*target, script_entries@, before0, fuel) == (false, before1));
                assert(spec_expr_host(*value, script_entries@, before1, fuel) == (f1, seen_scripts@));
            }
            f1
        },
        LoweredLogicStatement::Conditional { condition, then_branch, else_branch } => {
            let ghost seen0 = seen_scripts@;
            let ghost before0 = seen_scripts@;
            proof { lemma_unseen_grow(script_entries@, seen0, before0); }
            let f0 = expr_references_host_file_functions(condition, script_entries, seen_scripts);
            if f0 {
                assert forall|fuel: nat| fuel >= unseen_scripts(script_entries@, seen0) implies #[trigger] spec_stmt_host(*statement, script_entries@, seen0, fuel) == (true, seen_scripts@) by {
                    assert(spec_expr_host(*condition, script_entries@, before0, fuel) == (f0, seen_scripts@));
                }
                return true;
            }
            let ghost before1 = seen_scripts@;
            proof { lemma_unseen_grow(script_entries@, seen0, before1); }
            let f1 = statements_reference_host_file_functions(then_branch, script_entries, seen_scripts);
            if f1 {
                assert forall|fuel: nat| fuel >= unseen_scripts(script_entries@, seen0) implies #[trigger] spec_stmt_host(*statement, script_entries@, seen0, fuel) == (true, seen_scripts@) by {
                    assert(spec_expr_host(*condition, script_entries@, before0, fuel) == (false, before1));
                    assert(spec_stmts_host(then_branch@, script_entries@, before1, fuel) == (f1, seen_scripts@));
                }
                return true;
            }
            let ghost before2 = seen_scripts@;
            proof { lemma_unseen_grow(script_entries@, seen0, before2); }
            let f2 = statements_reference_host_file_functions(else_branch, script_entries, seen_scripts);
            assert forall|fuel: nat| fuel >= unseen_scripts(script_entries@, seen0) implies #[trigger] spec_stmt_host(*statement, script_entries@, seen0, fuel) == (f2, seen_scripts@) by {
                assert(spec_expr_host(*condition, script_entries@, before0, fuel) == (false, before1));
                assert(spec_stmts_host(then_branch@, script_entries@, before1, fuel) == (false, before2));
                assert(spec_stmts_host(else_branch@, script_entries@, before2, fuel) == (f2, seen_scripts@));
            }
            f2
        },
        LoweredLogicStatement::FunctionCall { name, args } => {
            let ghost seen0 = seen_scripts@;
            let r = call_references_host_file_functions(name, args, script_entries, seen_scripts);
            assert forall|fuel: nat| fuel >= unseen_scripts(script_entries@, seen0) implies #[trigger] spec_stmt_host(*statement, script_entries@, seen0, fuel) == (r, seen_scripts@) by {
                assert(spec_call_host(name@, args@, script_entries@, seen0, fuel) == (r, seen_scripts@));
            }
            r
        },
        LoweredLogicStatement::With { target, body } => {
            let ghost seen0 = seen_scripts@;
            let ghost before0 = seen_scripts@;
            proof { lemma_unseen_grow(script_entries@, seen0, before0); }
            let f0 = expr_references_host_file_functions(target, script_entries, seen_scripts);
            if f0 {
                assert forall|fuel: nat| fuel >= unseen_scripts(script_entries@, seen0) implies #[trigger] spec_stmt_host(*statement, script_entries@, seen0, fuel) == (true, seen_scripts@) by {
                    assert(spec_expr_host(*target, script_entries@, before0, fuel) == (f0, seen_scripts@));
                }
                return true;
            }
            let ghost before1 = seen_scripts@;
            proof { lemma_unseen_grow(script_entries@, seen0, before1); }
            let f1 = statements_reference_host_file_functions(body, script_entries, seen_scripts);
            assert forall|fuel: nat| fuel >= unseen_scripts(script_entries@, seen0) implies #[trigger] spec_stmt_host(*statement, script_entries@, seen0, fuel) == (f1, seen_scripts@) by {
                assert(spec_expr_host(*target, script_entries@, before0, fuel) == (false, before1));
                assert(spec_stmts_host(body@, script_entries@, before1, fuel) == (f1, seen_scripts@));
            }
            f1
        },
        LoweredLogicStatement::For { init, condition, step, body } => {
            let ghost seen0 = seen_scripts@;
            let ghost before0 = seen_scripts@;
            proof { lemma_unseen_grow(script_entries@, seen0, before0); }
            let f0 = expr_references_host_file_functions(init, script_entries, seen_scripts);
            if f0 {
                assert forall|fuel: nat| fuel >= unseen_scripts(script_entries@, seen0) implies #[trigger] spec_stmt_host(*statement, script_entries@, seen0, fuel) == (true, seen_scripts@) by {
                    assert(spec_expr_host(*init, script_entries@, before0, fuel) == (f0, seen_scripts@));
                }
                return true;
            }
            let ghost before1 = seen_scripts@;
            proof { lemma_unseen_grow(script_entries@, seen0, before1); }
            let f1 = expr_references_host_file_functions(condition, script_entries, seen_scripts);
            if f1 {
                assert forall|fuel: nat| fuel >= unseen_scripts(script_entries@, seen0) implies #[trigger] spec_stmt_host(*statement, script_entries@, seen0, fuel) == (true, seen_scripts@) by {
                    assert(spec_expr_host(*init, script_entries@, before0, fuel) == (false, before1));
                    assert(spec_expr_host(*condition, script_entries@, before1, fuel) == (f1, seen_scripts@));
                }
                return true;
            }
            let ghost before2 = seen_scripts@;
            proof { lemma_unseen_grow(script_entries@, seen0, before2); }
            let f2 = expr_references_host_file_functions(step, script_entries, seen_scripts);
            if f2 {
                assert forall|fuel: nat| fuel >= unseen_scripts(script_entries@, seen0) implies #[trigger] spec_stmt_host(*statement, script_entries@, seen0, fuel) == (true, seen_scripts@) by {
                    assert(spec_expr_host(*init, script_entries@, before0, fuel) == (false, before1));
                    assert(spec_expr_host(*condition, script_entries@, before1, fuel) == (false, before2));
                    assert(spec_expr_host(*step, script_entries@, before2, fuel) == (f2, seen_scripts@));
                }
                return true;
            }
            let ghost before3 = seen_scripts@;
            proof { lemma_unseen_grow(script_entries@, seen0, before3); }
            let f3 = statements_reference_host_file_functions(body, script_entries, seen_scripts);
            assert forall|fuel: nat| fuel >= unseen_scripts(script_entries@, seen0) implies #[trigger] spec_stmt_host(*statement, script_entries@, seen0, fuel) == (f3, seen_scripts@) by {
                assert(spec_expr_host(*init, script_entries@, before0, fuel) == (false, before1));
                assert(spec_expr_host(*condition, script_entries@, before1, fuel) == (false, before2));
                assert(spec_expr_host(*step, script_entries@, before2, fuel) == (false, before3));
                assert(spec_stmts_host(body@, script_entries@, before3, fuel) == (f3, seen_scripts@));
            }
            f3
        },
        LoweredLogicStatement::Repeat { count, body } => {
            let ghost seen0 = seen_scripts@;
            let ghost before0 = seen_scripts@;
            proof { lemma_unseen_grow(script_entries@, seen0, before0); }
            let f0 = expr_references_host_file_functions(count, script_entries, seen_scripts);
            if f0 {
                assert forall|fuel: nat| fuel >= unseen_scripts(script_entries@, seen0) implies #[trigger] spec_stmt_host(*statement, script_entries@, seen0, fuel) == (true, seen_scripts@) by {
                    assert(spec_expr_host(*count, script_entries@, before0, fuel) == (f0, seen_scripts@));
                }
                return true;
            }
            let ghost before1 = seen_scripts@;
            proof { lemma_unseen_grow(script_entries@, seen0, before1); }
            let f1 = statements_reference_host_file_functions(body, script_entries, seen_scripts);
            assert forall|fuel: nat| fuel >= unseen_scripts(script_entries@, seen0) implies #[trigger] spec_stmt_host(*statement, script_entries@, seen0, fuel) == (f1, seen_scripts@) by {
                assert(spec_expr_host(*count, script_entries@, before0, fuel) == (false, before1));
                assert(spec_stmts_host(body@, script_entries@, before1, fuel) == (f1, seen_scripts@));
            }
            f1
        },
        LoweredLogicStatement::While { condition, body } => {
            let ghost seen0 = seen_scripts@;
            let ghost before0 = seen_scripts@;
            proof { lemma_unseen_grow(script_entries@, seen0, before0); }
            let f0 = expr_references_host_file_functions(condition, script_entries, seen_scripts);
            if f0 {
                assert forall|fuel: nat| fuel >= unseen_scripts(script_entries@, seen0) implies #[trigger] spec_stmt_host(*statement, script_entries@, seen0, fuel) == (true, seen_scripts@) by {
                    assert(spec_expr_host(*condition, script_entries@, before0, fuel) == (f0, seen_scripts@));
                }
                return true;
            }
            let ghost before1 = seen_scripts@;
            proof { lemma_unseen_grow(script_entries@, seen0, before1); }
            let f1 = statements_reference_host_file_functions(body, script_entries, seen_scripts);
            assert forall|fuel: nat| fuel >= unseen_scripts(script_entries@, seen0) implies #[trigger] spec_stmt_host(*statement, script_entries@, seen0, fuel) == (f1, seen_scripts@) by {
                assert(spec_expr_host(*condition, script_entries@, before0, fuel) == (false, before1));
                assert(spec_stmts_host(body@, script_entries@, before1, fuel) == (f1, seen_scripts@));
            }
            f1
        },
        _ => false,
    }
}

// ----------------------------------------------------------------------------
// Scripts the host must run once files are available

/// Whether the script's statements reach a host file function, searching from
/// no visited script.
pub open spec fn spec_script_reaches_host_files<N>(
    statements: Seq<LoweredLogicStatement<N>>,
    entries: Map<Seq<char>, LoweredLogicEntry<N>>,
) -> bool {
    spec_stmts_host(statements, entries, Set::empty(), unseen_scripts(entries, Set::empty())).0
}

/// The logic entry a creation statement defers to the host: for a call of a
/// script that reaches a host file function and whose block is indexed, the
/// block's entry index.
pub open spec fn spec_deferred_call<N>(
    statement: LoweredLogicStatement<N>,
    entries: Map<Seq<char>, LoweredLogicEntry<N>>,
    logic_index: Map<Seq<char>, usize>,
) -> Option<usize> {
    match statement {
        LoweredLogicStatement::FunctionCall { name, .. } => if entries.contains_key(name@)
            && spec_script_reaches_host_files(entries[name@].statements@, entries)
            && logic_index.contains_key(entries[name@].block_id@) {
            Some(logic_index[entries[name@].block_id@])
        } else {
            None
        },
        _ => None,
    }
}

/// `calls` with `call` appended unless it is already there.
pub open spec fn spec_add_call(calls: Seq<(usize, usize)>, call: (usize, usize)) -> Seq<(usize, usize)> {
    if calls.contains(call) { calls } else { calls.push(call) }
}

/// The calls deferred by the statements of one creation block of instance
/// `instance_idx`, added in order to `calls`.
pub open spec fn spec_deferred_in_statements<N>(
    calls: Seq<(usize, usize)>,
    instance_idx: usize,
    statements: Seq<LoweredLogicStatement<N>>,
    entries: Map<Seq<char>, LoweredLogicEntry<N>>,
    logic_index: Map<Seq<char>, usize>,
) -> Seq<(usize, usize)>
    decreases statements.len(),
{
    if statements.len() == 0 {
        calls
    } else {
        let before = spec_deferred_in_statements(calls, instance_idx, statements.drop_last(), entries, logic_index);
        match spec_deferred_call(statements.last(), entries, logic_index) {
            Some(index) => spec_add_call(before, (instance_idx, index)),
            None => before,
        }
    }
}

/// The calls deferred by the creation blocks of instance `instance_idx`, in
/// order, added to `calls`.
pub open spec fn spec_deferred_in_entries<N>(
    calls: Seq<(usize, usize)>,
    instance_idx: usize,
    create_entries: Seq<LoweredLogicEntry<N>>,
    entries: Map<Seq<char>, LoweredLogicEntry<N>>,
    logic_index: Map<Seq<char>, usize>,
) -> Seq<(usize, usize)>
    decreases create_entries.len(),
{
    if create_entries.len() == 0 {
        calls
    } else {
        spec_deferred_in_statements(
            spec_deferred_in_entries(calls, instance_idx, create_entries.drop_last(), entries, logic_index),
            instance_idx,
            create_entries.last().statements@,
            entries,
            logic_index,
        )
    }
}

/// The calls deferred by the first `n` instances of the room: for each live
/// instance in order, by the creation blocks of its object.
pub open spec fn spec_deferred_calls<N>(
    instances: Seq<RuntimeInstance<N>>,
    n: int,
    create_entries: Map<usize, Vec<LoweredLogicEntry<N>>>,
    entries: Map<Seq<char>, LoweredLogicEntry<N>>,
    logic_index: Map<Seq<char>, usize>,
) -> Seq<(usize, usize)>
    decreases n,
{
    if n <= 0 {
        Seq::empty()
    } else {
        let before = spec_deferred_calls(instances, n - 1, create_entries, entries, logic_index);
        let instance = instances[n - 1];
        if instance.alive && create_entries.contains_key(instance.object_id) {
            spec_deferred_in_entries(
                before,
                (n - 1) as usize,
                create_entries[instance.object_id]@,
                entries,
                logic_index,
            )
        } else {
            before
        }
    }
}

fn contains_call(calls: &Vec<(usize, usize)>, call: (usize, usize)) -> (r: bool)
    ensures
        r == calls@.contains(call),
{
    let mut i: usize = 0;
    while i < calls.len()
        invariant
            i <= calls@.len(),
            forall|j: int| 0 <= j < i ==> calls@[j] != call,
        decreases calls@.len() - i,
    {
        if calls[i].0 == call.0 && calls[i].1 == call.1 {
            return true;
        }
        i = i + 1;
    }
    false
}

/// The script calls in the creation code of the room's live instances that
/// reach the host's file functions, as pairs of instance position and logic
/// entry index, each once, in order: the host runs them once its files are
/// available. Nothing without a room.
pub fn deferred_host_bootstrap_script_entry_indices<N>(
    room: Option<&RuntimeRoomState<N>>,
    create_entries: &HashMap<usize, Vec<LoweredLogicEntry<N>>>,
    script_entries: &StringHashMap<LoweredLogicEntry<N>>,
    logic_index: &StringHashMap<usize>,
) -> (r: Vec<(usize, usize)>)
    requires
        script_entries@.dom().finite(),
    ensures
        r@ == match room {
            Some(room) => spec_deferred_calls(
                room.instances@,
                room.instances@.len() as int,
                create_entries@,
                script_entries@,
                logic_index@,
            ),
            None => Seq::empty(),
        },
{
    broadcast use vstd::std_specs::hash::group_hash_axioms;
    let room = match room {
        Some(room) => room,
        None => return Vec::new(),
    };
    let mut calls: Vec<(usize, usize)> = Vec::new();
    let mut i: usize = 0;
    while i < room.instances.len()
        invariant
            script_entries@.dom().finite(),
            i <= room.instances@.len(),
            calls@ == spec_deferred_calls(room.instances@, i as int, create_entries@, script_entries@, logic_index@),
        decreases room.instances@.len() - i,
    {
        let instance = &room.instances[i];
        if instance.alive {
            match create_entries.get(&instance.object_id) {
                Some(blocks) => {
                    let ghost start = calls@;
                    let mut e: usize = 0;
                    while e < blocks.len()
                        invariant
                            script_entries@.dom().finite(),
                            e <= blocks@.len(),
                            calls@ == spec_deferred_in_entries(
                                start,
                                i,
                                blocks@.take(e as int),
                                script_entries@,
                                logic_index@,
                            ),
                        decreases blocks@.len() - e,
                    {
                        assert(blocks@.take(e + 1).drop_last() =~= blocks@.take(e as int));
                        let statements = &blocks[e].statements;
                        let ghost mid = calls@;
                        let mut s: usize = 0;
                        while s < statements.len()
                            invariant
                                script_entries@.dom().finite(),
                                s <= statements@.len(),
                                calls@ == spec_deferred_in_statements(
                                    mid,
                                    i,
                                    statements@.take(s as int),
                                    script_entries@,
                                    logic_index@,
                                ),
                            decreases statements@.len() - s,
                        {
                            assert(statements@.take(s + 1).drop_last() =~= statements@.take(s as int));
                            let ghost before = calls@;
                            match &statements[s] {
                                LoweredLogicStatement::FunctionCall { name, .. } => {
                                    match script_entries.get(name.as_str()) {
                                        Some(script) => {
                                            let mut seen = StringHashSet::new();
                                            assert(seen@ =~= Set::<Seq<char>>::empty());
                                            let reaches = statements_reference_host_file_functions(
                                                &script.statements,
                                                script_entries,
                                                &mut seen,
                                            );
                                            assert(reaches == spec_script_reaches_host_files(
                                                script.statements@,
                                                script_entries@,
                                            ));
                                            if reaches {
                                                match logic_index.get(script.block_id.as_str()) {
                                                    Some(index) => {
                                                        let call = (i, *index);
                                                        if !contains_call(&calls, call) {
                                                            calls.push(call);
                                                        }
                                                    },
                                                    None => {},
                                                }
                                            }
                                        },
                                        None => {},
                                    }
                                },
                                _ => {},
                            }
                            s = s + 1;
                        }
                        assert(statements@.take(s as int) =~= statements@);
                        e = e + 1;
                    }
                    assert(blocks@.take(e as int) =~= blocks@);
                },
                None => {},
            }
        }
        i = i + 1;
    }
    calls
}

/// The host file functions are `file_exists`, `file_bin_open`,
/// `file_bin_read_byte`, `file_bin_write_byte`, `file_bin_close` and
/// `file_delete`.
pub proof fn law_host_file_functions(name: Seq<char>)
    ensures
        name == "file_exists"@ ==> spec_is_host_file_function(name),
        name == "file_bin_open"@ ==> spec_is_host_file_function(name),
        name == "file_bin_read_byte"@ ==> spec_is_host_file_function(name),
        name == "file_bin_write_byte"@ ==> spec_is_host_file_function(name),
        name == "file_bin_close"@ ==> spec_is_host_file_function(name),
        name == "file_delete"@ ==> spec_is_host_file_function(name),
        spec_is_host_file_function(name) ==> name == "file_exists"@ || name == "file_bin_open"@ || name == "file_bin_read_byte"@ || name == "file_bin_write_byte"@ || name == "file_bin_close"@ || name == "file_delete"@,
{
}

} // verus!
