//! The lowered GML program representation, and structural analyses over it.

use vstd::prelude::*;

use crate::text::str_eq;

verus! {

/// A lowered GML expression. `N` is the runtime's number representation, which
/// these analyses carry through without inspecting.
pub enum LoweredLogicExpr<N> {
    Identifier(String),
    LiteralNumber(N),
    LiteralBool(bool),
    LiteralText(String),
    Raw { source: String },
    Call { name: String, args: Vec<LoweredLogicExpr<N>> },
    UnaryExpr { op: String, child: Box<LoweredLogicExpr<N>> },
    BinaryExpr { op: String, left: Box<LoweredLogicExpr<N>>, right: Box<LoweredLogicExpr<N>> },
    MemberAccess { target: Box<LoweredLogicExpr<N>>, member: String },
    IndexAccess { target: Box<LoweredLogicExpr<N>>, index: Box<LoweredLogicExpr<N>> },
}

/// A lowered GML statement.
#[allow(inconsistent_fields)]
pub enum LoweredLogicStatement<N> {
    Assignment { target: LoweredLogicExpr<N>, value: LoweredLogicExpr<N> },
    VariableDeclaration { names: Vec<String> },
    Return { value: Option<LoweredLogicExpr<N>> },
    FunctionCall { name: String, args: Vec<LoweredLogicExpr<N>> },
    Conditional {
        condition: LoweredLogicExpr<N>,
        then_branch: Vec<LoweredLogicStatement<N>>,
        else_branch: Vec<LoweredLogicStatement<N>>,
    },
    With { target: LoweredLogicExpr<N>, body: Vec<LoweredLogicStatement<N>> },
    Repeat { count: LoweredLogicExpr<N>, body: Vec<LoweredLogicStatement<N>> },
    While { condition: LoweredLogicExpr<N>, body: Vec<LoweredLogicStatement<N>> },
    For {
        init: LoweredLogicExpr<N>,
        condition: LoweredLogicExpr<N>,
        step: LoweredLogicExpr<N>,
        body: Vec<LoweredLogicStatement<N>>,
    },
    Raw { source: String },
}

/// One lowered code block: an event, a script or a creation block.
pub struct LoweredLogicEntry<N> {
    pub block_id: String,
    pub statements: Vec<LoweredLogicStatement<N>>,
}

/// The keyboard query functions whose argument may name the jump button.
pub open spec fn spec_is_keyboard_query(name: Seq<char>) -> bool {
    name == "keyboard_check"@ || name == "keyboard_check_direct"@ || name
        == "keyboard_check_pressed"@ || name == "keyboard_check_released"@
}

/// The expression is exactly `global.jumpbutton`.
pub open spec fn spec_is_global_jumpbutton<N>(expr: LoweredLogicExpr<N>) -> bool {
    match expr {
        LoweredLogicExpr::MemberAccess { target, member } => member@ == "jumpbutton"@ && match *target {
            LoweredLogicExpr::Identifier(name) => name@ == "global"@,
            _ => false,
        },
        _ => false,
    }
}

/// Some argument in the sequence is `global.jumpbutton`.
pub open spec fn spec_any_global_jumpbutton<N>(args: Seq<LoweredLogicExpr<N>>) -> bool {
    exists|i: int| 0 <= i < args.len() && spec_is_global_jumpbutton(#[trigger] args[i])
}

/// The expression queries the keyboard state of `global.jumpbutton` somewhere.
pub open spec fn spec_expr_jump<N>(expr: LoweredLogicExpr<N>) -> bool
    decreases expr,
{
    match expr {
        LoweredLogicExpr::Call { name, args } => (spec_is_keyboard_query(name@)
            && spec_any_global_jumpbutton(args@)) || spec_exprs_jump(args@),
        LoweredLogicExpr::UnaryExpr { child, .. } => spec_expr_jump(*child),
        LoweredLogicExpr::BinaryExpr { left, right, .. } => spec_expr_jump(*left) || spec_expr_jump(
            *right,
        ),
        LoweredLogicExpr::MemberAccess { target, .. } => spec_expr_jump(*target),
        LoweredLogicExpr::IndexAccess { target, index } => spec_expr_jump(*target)
            || spec_expr_jump(*index),
        _ => false,
    }
}

/// Some expression of the sequence queries the jump button.
pub open spec fn spec_exprs_jump<N>(exprs: Seq<LoweredLogicExpr<N>>) -> bool
    decreases exprs,
{
    if exprs.len() == 0 {
        false
    } else {
        spec_exprs_jump(exprs.drop_last()) || spec_expr_jump(exprs.last())
    }
}


/// The statement queries the keyboard state of `global.jumpbutton` somewhere.
pub open spec fn spec_stmt_jump<N>(statement: LoweredLogicStatement<N>) -> bool
    decreases statement,
{
    match statement {
        LoweredLogicStatement::Assignment { value, .. } => spec_expr_jump(value),
        LoweredLogicStatement::Conditional { condition, then_branch, else_branch } => spec_expr_jump(
            condition,
        ) || spec_stmts_jump(then_branch@) || spec_stmts_jump(else_branch@),
        LoweredLogicStatement::FunctionCall { name, args } => (spec_is_keyboard_query(name@)
            && spec_any_global_jumpbutton(args@)) || spec_exprs_jump(args@),
        LoweredLogicStatement::With { body, .. } => spec_stmts_jump(body@),
        LoweredLogicStatement::Repeat { body, .. } => spec_stmts_jump(body@),
        LoweredLogicStatement::While { body, .. } => spec_stmts_jump(body@),
        LoweredLogicStatement::For { body, .. } => spec_stmts_jump(body@),
        LoweredLogicStatement::Return { value } => match value {
            Some(v) => spec_expr_jump(v),
            None => false,
        },
        _ => false,
    }
}

/// Some statement of the sequence queries the jump button.
pub open spec fn spec_stmts_jump<N>(statements: Seq<LoweredLogicStatement<N>>) -> bool
    decreases statements,
{
    if statements.len() == 0 {
        false
    } else {
        spec_stmts_jump(statements.drop_last()) || spec_stmt_jump(statements.last())
    }
}

/// Whether `expr` is exactly `global.jumpbutton`.
pub fn expr_is_global_jumpbutton<N>(expr: &LoweredLogicExpr<N>) -> (r: bool)
    ensures
        r == spec_is_global_jumpbutton(*expr),
{
    match expr {
        LoweredLogicExpr::MemberAccess { target, member } => {
            if !str_eq(member, "jumpbutton") {
                return false;
            }
            match &**target {
                LoweredLogicExpr::Identifier(name) => str_eq(name, "global"),
                _ => false,
            }
        },
        _ => false,
    }
}

fn any_global_jumpbutton<N>(args: &Vec<LoweredLogicExpr<N>>) -> (r: bool)
    ensures
        r == spec_any_global_jumpbutton(args@),
{
    let mut i: usize = 0;
    while i < args.len()
        invariant
            i <= args@.len(),
            forall|j: int| 0 <= j < i ==> !spec_is_global_jumpbutton(#[trigger] args@[j]),
        decreases args@.len() - i,
    {
        if expr_is_global_jumpbutton(&args[i]) {
            return true;
        }
        i = i + 1;
    }
    false
}

fn is_keyboard_query(name: &str) -> (r: bool)
    ensures
        r == spec_is_keyboard_query(name@),
{
    str_eq(name, "keyboard_check") || str_eq(name, "keyboard_check_direct") || str_eq(
        name,
        "keyboard_check_pressed",
    ) || str_eq(name, "keyboard_check_released")
}

proof fn lemma_exprs_jump_take<N>(s: Seq<LoweredLogicExpr<N>>, i: int)
    requires
        0 <= i < s.len(),
    ensures
        spec_exprs_jump(s.take(i + 1)) == (spec_exprs_jump(s.take(i)) || spec_expr_jump(s[i])),
{
    assert(s.take(i + 1).drop_last() =~= s.take(i));
}

proof fn lemma_exprs_jump_element<N>(s: Seq<LoweredLogicExpr<N>>, i: int)
    requires
        0 <= i < s.len(),
        spec_expr_jump(s[i]),
    ensures
        spec_exprs_jump(s),
    decreases s.len(),
{
    if i < s.len() - 1 {
        lemma_exprs_jump_element(s.drop_last(), i);
    }
}

fn exprs_reference_jump_queries<N>(args: &Vec<LoweredLogicExpr<N>>) -> (r: bool)
    ensures
        r == spec_exprs_jump(args@),
    decreases args@,
{
    let mut i: usize = 0;
    while i < args.len()
        invariant
            i <= args@.len(),
            !spec_exprs_jump(args@.take(i as int)),
        decreases args@.len() - i,
    {
        proof { lemma_exprs_jump_take(args@, i as int); }
        if expr_references_jump_queries(&args[i]) {
            proof { lemma_exprs_jump_element(args@, i as int); }
            return true;
        }
        i = i + 1;
    }
    assert(args@.take(i as int) =~= args@);
    false
}

/// Whether `expr` queries the keyboard state of `global.jumpbutton` anywhere.
pub fn expr_references_jump_queries<N>(expr: &LoweredLogicExpr<N>) -> (r: bool)
    ensures
        r == spec_expr_jump(*expr),
    decreases expr,
{
    match expr {
        LoweredLogicExpr::Call { name, args } => {
            (is_keyboard_query(name) && any_global_jumpbutton(args)) || exprs_reference_jump_queries(args)
        },
        LoweredLogicExpr::UnaryExpr { child, .. } => expr_references_jump_queries(child),
        LoweredLogicExpr::BinaryExpr { left, right, .. } => {
            expr_references_jump_queries(left) || expr_references_jump_queries(right)
        },
        LoweredLogicExpr::MemberAccess { target, .. } => expr_references_jump_queries(target),
        LoweredLogicExpr::IndexAccess { target, index } => {
            expr_references_jump_queries(target) || expr_references_jump_queries(index)
        },
        _ => false,
    }
}


proof fn lemma_stmts_jump_take<N>(s: Seq<LoweredLogicStatement<N>>, i: int)
    requires
        0 <= i < s.len(),
    ensures
        spec_stmts_jump(s.take(i + 1)) == (spec_stmts_jump(s.take(i)) || spec_stmt_jump(s[i])),
{
    assert(s.take(i + 1).drop_last() =~= s.take(i));
}

proof fn lemma_stmts_jump_element<N>(s: Seq<LoweredLogicStatement<N>>, i: int)
    requires
        0 <= i < s.len(),
        spec_stmt_jump(s[i]),
    ensures
        spec_stmts_jump(s),
    decreases s.len(),
{
    if i < s.len() - 1 {
        lemma_stmts_jump_element(s.drop_last(), i);
    }
}

/// Whether some statement of the block queries the keyboard state of
/// `global.jumpbutton`.
pub fn statements_reference_jump_queries<N>(statements: &Vec<LoweredLogicStatement<N>>) -> (r: bool)
    ensures
        r == spec_stmts_jump(statements@),
    decreases statements@,
{
    let mut i: usize = 0;
    while i < statements.len()
        invariant
            i <= statements@.len(),
            !spec_stmts_jump(statements@.take(i as int)),
        decreases statements@.len() - i,
    {
        proof { lemma_stmts_jump_take(statements@, i as int); }
        if statement_references_jump_queries(&statements[i]) {
            proof { lemma_stmts_jump_element(statements@, i as int); }
            return true;
        }
        i = i + 1;
    }
    assert(statements@.take(i as int) =~= statements@);
    false
}

/// Whether the statement queries the keyboard state of `global.jumpbutton`
/// anywhere, nested blocks included.
pub fn statement_references_jump_queries<N>(statement: &LoweredLogicStatement<N>) -> (r: bool)
    ensures
        r == spec_stmt_jump(*statement),
    decreases statement,
{
    match statement {
        LoweredLogicStatement::Assignment { value, .. } => expr_references_jump_queries(value),
        LoweredLogicStatement::Conditional { condition, then_branch, else_branch } => {
            expr_references_jump_queries(condition) || statements_reference_jump_queries(
                then_branch,
            ) || statements_reference_jump_queries(else_branch)
        },
        LoweredLogicStatement::FunctionCall { name, args } => {
            (is_keyboard_query(name) && any_global_jumpbutton(args)) || exprs_reference_jump_queries(args)
        },
        LoweredLogicStatement::With { body, .. } => statements_reference_jump_queries(body),
        LoweredLogicStatement::Repeat { body, .. } => statements_reference_jump_queries(body),
        LoweredLogicStatement::While { body, .. } => statements_reference_jump_queries(body),
        LoweredLogicStatement::For { body, .. } => statements_reference_jump_queries(body),
        LoweredLogicStatement::Return { value } => match value {
            Some(v) => expr_references_jump_queries(v),
            None => false,
        },
        _ => false,
    }
}

/// `keyboard_check`, `keyboard_check_direct`, `keyboard_check_pressed` and
/// `keyboard_check_released` of `global.jumpbutton` are jump queries, as an
/// expression and as a statement.
pub proof fn law_keyboard_checks_of_the_jump_button_are_jump_queries<N>(
    name: String,
    args: Vec<LoweredLogicExpr<N>>,
    j: int,
    global: String,
    jumpbutton: String,
)
    requires
        0 <= j < args@.len(),
        global@ == "global"@,
        jumpbutton@ == "jumpbutton"@,
        args@[j] == (LoweredLogicExpr::<N>::MemberAccess {
            target: Box::new(LoweredLogicExpr::Identifier(global)),
            member: jumpbutton,
        }),
        name@ == "keyboard_check"@ || name@ == "keyboard_check_direct"@ || name@ == "keyboard_check_pressed"@
            || name@ == "keyboard_check_released"@,
    ensures
        spec_expr_jump(LoweredLogicExpr::Call { name, args }),
        spec_stmt_jump(LoweredLogicStatement::FunctionCall { name, args }),
{
    assert(spec_is_global_jumpbutton(args@[j]));
    assert(spec_any_global_jumpbutton(args@));
}

/// Each of the four keyboard checks is a keyboard query, and no other name
/// is one.
pub proof fn law_keyboard_queries_are_the_four_checks(name: Seq<char>)
    ensures
        spec_is_keyboard_query("keyboard_check"@),
        spec_is_keyboard_query("keyboard_check_direct"@),
        spec_is_keyboard_query("keyboard_check_pressed"@),
        spec_is_keyboard_query("keyboard_check_released"@),
        spec_is_keyboard_query(name) ==> name == "keyboard_check"@ || name == "keyboard_check_direct"@ || name
            == "keyboard_check_pressed"@ || name == "keyboard_check_released"@,
{
}

} // verus!
