//! The expression parser: turns the token stream of one statement into a
//! typed expression tree, resolving each variable reference against the
//! function's parameters and the statements already parsed.
//! `spec_parse_expression` is the mathematical account of the whole
//! parse; `parse_expression` returns exactly what it says.
use vstd::prelude::*;
use vstd::slice::slice_index_get;
use vstd::slice::slice_subrange;
use vstd::string::StrSliceExecFns;
use vstd::string::StringExecFns;
use crate::blocks::Param;
use crate::blocks::SpecParam;
use crate::text::str_eq;
use crate::tokenizer::FullyQualifiedToken;
use crate::tokenizer::SpecFqt;
use crate::tokenizer::SpecToken;
use crate::tokenizer::Token;
use crate::tokenizer::clone_fqt;
use crate::tokenizer::error_with_info;
use crate::tokenizer::spec_error_with_info;
use crate::tokenizer::spec_split_statements;
use crate::tokenizer::spec_token_text;
use crate::tokenizer::split_by_semicolon_within_brackets;
use crate::tokenizer::token_eq;

verus! {

broadcast use vstd::std_specs::vec::group_vec_axioms;

#[derive(PartialEq, Debug)]
pub enum Expression {
    Number { value: String, ty: String },
    Variable { body: String, ty: String },
    Return { expression: Box<Expression> },
    LocalAssign { name: String, ty: String, expression: Box<Expression> },
    GlobalAssign { name: String, ty: String, expression: Box<Expression> },
    Addition { left: Box<Expression>, right: Box<Expression> },
    String { body: String },
    FunctionCall { name: String, args: Vec<Expression> },
    MemoryReference { offset: i32, length: i32 },
    IfStatement { predicate: Box<Expression>, success: Box<Expression>, fail: Box<Expression> },
    Boolean { value: bool },
    ForStatement {
        initial_value: Box<Expression>,
        incrementor: Box<Expression>,
        break_condition: Box<Expression>,
        body: Vec<Expression>,
    },
}

/// The mathematical model of an expression tree.
pub enum SpecExpression {
    Number { value: Seq<char>, ty: Seq<char> },
    Variable { body: Seq<char>, ty: Seq<char> },
    Return { expression: Box<SpecExpression> },
    LocalAssign { name: Seq<char>, ty: Seq<char>, expression: Box<SpecExpression> },
    GlobalAssign { name: Seq<char>, ty: Seq<char>, expression: Box<SpecExpression> },
    Addition { left: Box<SpecExpression>, right: Box<SpecExpression> },
    String { body: Seq<char> },
    FunctionCall { name: Seq<char>, args: Seq<SpecExpression> },
    MemoryReference { offset: int, length: int },
    IfStatement {
        predicate: Box<SpecExpression>,
        success: Box<SpecExpression>,
        fail: Box<SpecExpression>,
    },
    Boolean { value: bool },
    ForStatement {
        initial_value: Box<SpecExpression>,
        incrementor: Box<SpecExpression>,
        break_condition: Box<SpecExpression>,
        body: Seq<SpecExpression>,
    },
}

pub open spec fn view_expr(e: Expression) -> SpecExpression
    decreases e,
{
    match e {
        Expression::Number { value, ty } => SpecExpression::Number {
            value: value@,
            ty: ty@,
        },
        Expression::Variable { body: b, ty: t } => (SpecExpression::Variable {
            body: b@,
            ty: t@,
        }),
        Expression::Return { expression } => SpecExpression::Return {
            expression: Box::new(view_expr(*expression)),
        },
        Expression::LocalAssign { name: n, ty: t, expression } => SpecExpression::LocalAssign {
            name: n@,
            ty: t@,
            expression: Box::new(view_expr(*expression)),
        },
        Expression::GlobalAssign { name: n, ty: t, expression } => SpecExpression::GlobalAssign {
            name: n@,
            ty: t@,
            expression: Box::new(view_expr(*expression)),
        },
        Expression::Addition { left, right } => SpecExpression::Addition {
            left: Box::new(view_expr(*left)),
            right: Box::new(view_expr(*right)),
        },
        Expression::String { body } => SpecExpression::String { body: body@ },
        Expression::FunctionCall { name, args } => SpecExpression::FunctionCall {
            name: name@,
            args: view_expr_seq(args@),
        },
        Expression::MemoryReference { offset, length } => SpecExpression::MemoryReference {
            offset: offset as int,
            length: length as int,
        },
        Expression::IfStatement { predicate, success, fail } => SpecExpression::IfStatement {
            predicate: Box::new(view_expr(*predicate)),
            success: Box::new(view_expr(*success)),
            fail: Box::new(view_expr(*fail)),
        },
        Expression::Boolean { value } => SpecExpression::Boolean { value },
        Expression::ForStatement { initial_value, incrementor, break_condition, body } => SpecExpression::ForStatement {
            initial_value: Box::new(view_expr(*initial_value)),
            incrementor: Box::new(view_expr(*incrementor)),
            break_condition: Box::new(view_expr(*break_condition)),
            body: view_expr_seq(body@),
        },
    }
}

pub open spec fn view_expr_seq(es: Seq<Expression>) -> Seq<SpecExpression>
    decreases es,
{
    if es.len() == 0 {
        Seq::empty()
    } else {
        seq![view_expr(es.first())] + view_expr_seq(es.drop_first())
    }
}

/// Indexing into the view of a sequence of expressions.
pub proof fn lemma_view_expr_seq_index(es: Seq<Expression>)
    ensures
        view_expr_seq(es).len() == es.len(),
        forall|i: int| 0 <= i < es.len() ==> view_expr_seq(es)[i] == view_expr(es[i]),
    decreases es.len(),
{
    if es.len() > 0 {
        lemma_view_expr_seq_index(es.drop_first());
    }
}

impl View for Expression {
    type V = SpecExpression;

    open spec fn view(&self) -> SpecExpression {
        view_expr(*self)
    }
}

impl DeepView for Expression {
    type V = SpecExpression;

    open spec fn deep_view(&self) -> SpecExpression {
        view_expr(*self)
    }
}

/// The deep view of a vector of expressions is the view of its element
/// sequence.
pub proof fn lemma_deep_view_exprs(es: &Vec<Expression>)
    ensures
        es.deep_view() =~= view_expr_seq(es@),
{
    lemma_view_expr_seq_index(es@);
}

impl Expression {
    /// Applies a transformation to this expression and returns the result.
    pub fn map<F: FnOnce(Expression) -> Expression>(self, f: F) -> (r: Expression)
        requires
            call_requires(f, (self,)),
        ensures
            call_ensures(f, (self,), r),
    {
        f(self)
    }
}

impl Clone for Expression {
    fn clone(&self) -> (r: Self)
        ensures
            r@ == self@,
    {
        clone_expr(self)
    }
}

/// A copy of an expression tree whose model is the original's.
pub fn clone_expr(e: &Expression) -> (r: Expression)
    ensures
        r@ == e@,
    decreases *e, 0int,
{
    match e {
        Expression::Number { value, ty } => Expression::Number {
            value: value.clone(),
            ty: ty.clone(),
        },
        Expression::Variable { body, ty } => Expression::Variable {
            body: body.clone(),
            ty: ty.clone(),
        },
        Expression::Return { expression } => Expression::Return {
            expression: Box::new(clone_expr(&**expression)),
        },
        Expression::LocalAssign { name, ty, expression } => Expression::LocalAssign {
            name: name.clone(),
            ty: ty.clone(),
            expression: Box::new(clone_expr(&**expression)),
        },
        Expression::GlobalAssign { name, ty, expression } => Expression::GlobalAssign {
            name: name.clone(),
            ty: ty.clone(),
            expression: Box::new(clone_expr(&**expression)),
        },
        Expression::Addition { left, right } => Expression::Addition {
            left: Box::new(clone_expr(&**left)),
            right: Box::new(clone_expr(&**right)),
        },
        Expression::String { body } => Expression::String { body: body.clone() },
        Expression::FunctionCall { name, args } => {
            let copied = clone_exprs(args);
            let out = Expression::FunctionCall { name: name.clone(), args: copied };
            proof {
                lemma_view_expr_seq_elements(out->FunctionCall_args@, args@);
            }
            out
        },
        Expression::MemoryReference { offset, length } => Expression::MemoryReference {
            offset: *offset,
            length: *length,
        },
        Expression::IfStatement { predicate, success, fail } => Expression::IfStatement {
            predicate: Box::new(clone_expr(&**predicate)),
            success: Box::new(clone_expr(&**success)),
            fail: Box::new(clone_expr(&**fail)),
        },
        Expression::Boolean { value } => Expression::Boolean { value: *value },
        Expression::ForStatement { initial_value, incrementor, break_condition, body } => {
            let copied = clone_exprs(body);
            let out = Expression::ForStatement {
                initial_value: Box::new(clone_expr(&**initial_value)),
                incrementor: Box::new(clone_expr(&**incrementor)),
                break_condition: Box::new(clone_expr(&**break_condition)),
                body: copied,
            };
            proof {
                lemma_view_expr_seq_elements(out->ForStatement_body@, body@);
            }
            out
        },
    }
}

/// Two expression sequences whose elements share their models share the
/// model of the whole sequence.
pub proof fn lemma_view_expr_seq_elements(a: Seq<Expression>, b: Seq<Expression>)
    requires
        a.len() == b.len(),
        forall|i: int| 0 <= i < a.len() ==> view_expr(#[trigger] a[i]) == view_expr(b[i]),
    ensures
        view_expr_seq(a) == view_expr_seq(b),
{
    lemma_view_expr_seq_index(a);
    lemma_view_expr_seq_index(b);
    assert(view_expr_seq(a) =~= view_expr_seq(b));
}

/// A copy of a vector of expressions, element models kept.
pub fn clone_exprs(es: &Vec<Expression>) -> (r: Vec<Expression>)
    ensures
        r@.len() == es@.len(),
        forall|i: int| 0 <= i < es@.len() ==> view_expr(#[trigger] r@[i]) == view_expr(es@[i]),
    decreases es@, 1int,
{
    let mut out: Vec<Expression> = Vec::new();
    let mut i: usize = 0;
    while i < es.len()
        invariant
            i <= es@.len(),
            out@.len() == i,
            forall|j: int| 0 <= j < i ==> view_expr(#[trigger] out@[j]) == view_expr(es@[j]),
        decreases es@.len() - i,
    {
        out.push(clone_expr(&es[i]));
        i += 1;
    }
    out
}

/// The first position at or after `from` holding the given token, or the
/// length when there is none.
pub open spec fn spec_first_index(ts: Seq<SpecFqt>, from: int, t: SpecToken) -> int
    decreases ts.len() - from,
{
    if from < 0 || from >= ts.len() {
        ts.len() as int
    } else if ts[from].token == t {
        from
    } else {
        spec_first_index(ts, from + 1, t)
    }
}

fn first_index_token(ts: &[FullyQualifiedToken], from: usize, t: &Token) -> (r: usize)
    requires
        from <= ts@.len(),
    ensures
        r as int == spec_first_index(ts.deep_view(), from as int, t@),
        from <= r <= ts@.len(),
        r < ts@.len() ==> ts.deep_view()[r as int].token == t@,
{
    let n = ts.len();
    let mut i = from;
    proof {
        assert(ts.deep_view().len() == ts@.len());
    }
    while i < n
        invariant
            from <= i <= n,
            n == ts@.len(),
            ts.deep_view().len() == ts@.len(),
            spec_first_index(ts.deep_view(), from as int, t@) == spec_first_index(
                ts.deep_view(),
                i as int,
                t@,
            ),
        decreases n - i,
    {
        let fqt = slice_index_get(ts, i);
        proof {
            assert(ts.deep_view()[i as int] == ts@[i as int].deep_view());
        }
        if token_eq(&fqt.token, t) {
            return i;
        }
        i += 1;
    }
    n
}

/// Whether the given token occurs anywhere in the stream.
pub open spec fn spec_has_token(ts: Seq<SpecFqt>, t: SpecToken) -> bool {
    spec_first_index(ts, 0, t) < ts.len()
}

/// The first position at or after `from` whose token is not a closing
/// brace.
pub open spec fn spec_skip_right_brackets(ts: Seq<SpecFqt>, from: int) -> int
    decreases ts.len() - from,
{
    if from < 0 || from >= ts.len() {
        ts.len() as int
    } else if ts[from].token is RightBracket {
        spec_skip_right_brackets(ts, from + 1)
    } else {
        from
    }
}

fn skip_right_brackets(ts: &[FullyQualifiedToken]) -> (r: usize)
    ensures
        r as int == spec_skip_right_brackets(ts.deep_view(), 0),
        r <= ts@.len(),
        r < ts@.len() ==> !(ts.deep_view()[r as int].token is RightBracket),
{
    let n = ts.len();
    let mut i: usize = 0;
    proof {
        assert(ts.deep_view().len() == ts@.len());
    }
    while i < n
        invariant
            i <= n,
            n == ts@.len(),
            ts.deep_view().len() == ts@.len(),
            spec_skip_right_brackets(ts.deep_view(), 0) == spec_skip_right_brackets(
                ts.deep_view(),
                i as int,
            ),
        decreases n - i,
    {
        let fqt = slice_index_get(ts, i);
        proof {
            assert(ts.deep_view()[i as int] == ts@[i as int].deep_view());
        }
        if !token_eq(&fqt.token, &Token::RightBracket) {
            return i;
        }
        i += 1;
    }
    n
}

/// The first position at or after `from` holding `target` at nesting
/// depth zero, where `open` deepens the nesting and `close` leaves it,
/// or the length when there is none. Searching for `close` itself finds
/// the occurrence that matches the construct opened before `from`.
pub open spec fn spec_find_top(
    ts: Seq<SpecFqt>,
    i: int,
    depth: int,
    open: SpecToken,
    close: SpecToken,
    target: SpecToken,
) -> int
    decreases ts.len() - i,
{
    if i < 0 || i >= ts.len() {
        ts.len() as int
    } else if depth == 0 && ts[i].token == target {
        i
    } else if ts[i].token == open {
        spec_find_top(ts, i + 1, depth + 1, open, close, target)
    } else if ts[i].token == close {
        spec_find_top(
            ts,
            i + 1,
            if depth > 0 {
                depth - 1
            } else {
                0
            },
            open,
            close,
            target,
        )
    } else {
        spec_find_top(ts, i + 1, depth, open, close, target)
    }
}

fn find_top(
    ts: &[FullyQualifiedToken],
    from: usize,
    open: &Token,
    close: &Token,
    target: &Token,
) -> (r: usize)
    requires
        from <= ts@.len(),
    ensures
        r as int == spec_find_top(ts.deep_view(), from as int, 0, open@, close@, target@),
        from <= r <= ts@.len(),
        r < ts@.len() ==> ts.deep_view()[r as int].token == target@,
{
    let n = ts.len();
    let mut i = from;
    let mut depth: usize = 0;
    proof {
        assert(ts.deep_view().len() == ts@.len());
    }
    while i < n
        invariant
            from <= i <= n,
            depth <= i,
            n == ts@.len(),
            ts.deep_view().len() == ts@.len(),
            spec_find_top(ts.deep_view(), from as int, 0, open@, close@, target@)
                == spec_find_top(ts.deep_view(), i as int, depth as int, open@, close@, target@),
        decreases n - i,
    {
        let fqt = slice_index_get(ts, i);
        proof {
            assert(ts.deep_view()[i as int] == ts@[i as int].deep_view());
        }
        if depth == 0 && token_eq(&fqt.token, target) {
            return i;
        } else if token_eq(&fqt.token, open) {
            depth += 1;
        } else if token_eq(&fqt.token, close) {
            if depth > 0 {
                depth -= 1;
            }
        }
        i += 1;
    }
    n
}

/// The argument windows of a call: token runs split at top-level commas,
/// ending at the parenthesis that closes the call; `None` when the
/// stream ends first. Nested parentheses keep their commas.
pub open spec fn spec_split_args_rec(
    ts: Seq<SpecFqt>,
    i: int,
    depth: int,
    cur: Seq<SpecFqt>,
) -> Option<Seq<Seq<SpecFqt>>>
    decreases ts.len() - i,
{
    if i < 0 || i >= ts.len() {
        None
    } else {
        let t = ts[i];
        if depth == 0 && t.token is RightParen {
            Some(if cur.len() == 0 { Seq::empty() } else { seq![cur] })
        } else if depth == 0 && t.token is Comma {
            match spec_split_args_rec(ts, i + 1, 0, Seq::empty()) {
                None => None,
                Some(ws) => Some(seq![cur] + ws),
            }
        } else if t.token is LeftParen {
            spec_split_args_rec(ts, i + 1, depth + 1, cur.push(t))
        } else if t.token is RightParen {
            spec_split_args_rec(ts, i + 1, depth - 1, cur.push(t))
        } else {
            spec_split_args_rec(ts, i + 1, depth, cur.push(t))
        }
    }
}

pub open spec fn spec_split_args(ts: Seq<SpecFqt>) -> Option<Seq<Seq<SpecFqt>>> {
    spec_split_args_rec(ts, 0, 0, Seq::empty())
}

fn split_call_args(ts: &[FullyQualifiedToken]) -> (r: Option<Vec<Vec<FullyQualifiedToken>>>)
    ensures
        (match r {
            Some(ws) => spec_split_args(ts.deep_view()) == Some(ws.deep_view()) && forall|k: int|
                0 <= k < ws@.len() ==> (#[trigger] ws@[k])@.len() < ts@.len(),
            None => spec_split_args(ts.deep_view()) is None,
        }),
{
    let ghost dv = ts.deep_view();
    let n = ts.len();
    let mut out: Vec<Vec<FullyQualifiedToken>> = Vec::new();
    let mut cur: Vec<FullyQualifiedToken> = Vec::new();
    let mut depth: usize = 0;
    let mut i: usize = 0;
    proof {
        assert(dv.len() == n);
        assert(out.deep_view() =~= Seq::<Seq<SpecFqt>>::empty());
        assert(cur.deep_view() =~= Seq::<SpecFqt>::empty());
    }
    while i < n
        invariant
            i <= n,
            n == ts@.len(),
            depth <= i,
            dv == ts.deep_view(),
            dv.len() == n,
            cur@.len() <= i,
            (forall|k: int| 0 <= k < out@.len() ==> (#[trigger] out@[k])@.len() < ts@.len()),
            (match spec_split_args_rec(dv, i as int, depth as int, cur.deep_view()) {
                None => spec_split_args(dv) is None,
                Some(ws) => spec_split_args(dv) == Some(out.deep_view() + ws),
            }),
        decreases n - i,
    {
        let ghost pre_out = out.deep_view();
        let ghost pre_cur = cur.deep_view();
        let fqt = slice_index_get(ts, i);
        proof {
            assert(dv[i as int] == ts@[i as int].deep_view());
        }
        if depth == 0 && token_eq(&fqt.token, &Token::RightParen) {
            if cur.is_empty() {
                proof {
                    assert(spec_split_args_rec(dv, i as int, depth as int, pre_cur)
                        == Some(Seq::<Seq<SpecFqt>>::empty()));
                    assert(pre_out + Seq::<Seq<SpecFqt>>::empty() =~= pre_out);
                }
                return Some(out);
            } else {
                proof {
                    assert(spec_split_args_rec(dv, i as int, depth as int, pre_cur) == Some(seq![pre_cur]));
                    assert(cur@.len() < ts@.len());
                }
                let ghost pc = cur.deep_view();
                out.push(cur);
                proof {
                    assert(out.deep_view() =~= pre_out.push(pc));
                    assert(pre_out + seq![pc] =~= pre_out.push(pc));
                }
                return Some(out);
            }
        } else if depth == 0 && token_eq(&fqt.token, &Token::Comma) {
            let ghost pc = cur.deep_view();
            out.push(cur);
            cur = Vec::new();
            proof {
                assert(out.deep_view() =~= pre_out.push(pc));
                assert(cur.deep_view() =~= Seq::<SpecFqt>::empty());
                assert(pc.len() <= i < ts@.len());
                if spec_split_args_rec(dv, i as int + 1, 0, Seq::empty()) is Some {
                    let ws = spec_split_args_rec(dv, i as int + 1, 0, Seq::empty())->Some_0;
                    assert(pre_out + (seq![pc] + ws) =~= pre_out.push(pc) + ws);
                }
            }
        } else if token_eq(&fqt.token, &Token::LeftParen) {
            cur.push(clone_fqt(fqt));
            depth += 1;
            proof {
                assert(cur.deep_view() =~= pre_cur.push(dv[i as int]));
            }
        } else if token_eq(&fqt.token, &Token::RightParen) {
            cur.push(clone_fqt(fqt));
            depth -= 1;
            proof {
                assert(cur.deep_view() =~= pre_cur.push(dv[i as int]));
            }
        } else {
            cur.push(clone_fqt(fqt));
            proof {
                assert(cur.deep_view() =~= pre_cur.push(dv[i as int]));
            }
        }
        i += 1;
    }
    None
}

/// What matching one expected token at a position yields: nothing on a
/// match, and the compiler's usual complaint otherwise.
pub open spec fn spec_try_to_match(ts: Seq<SpecFqt>, i: int, expected: SpecToken) -> Option<
    Seq<char>,
> {
    if 0 <= i < ts.len() {
        if ts[i].token == expected {
            None
        } else {
            Some(
                spec_error_with_info(
                    "Expected : but got "@ + spec_token_text(ts[i].token),
                    ts[i].line,
                    ts[i].index,
                ),
            )
        }
    } else {
        Some("Expected "@ + spec_token_text(expected) + " but got nothing"@)
    }
}

fn try_to_match(ts: &[FullyQualifiedToken], i: usize, expected: &Token) -> (r: Option<String>)
    ensures
        (match r {
            None => spec_try_to_match(ts.deep_view(), i as int, expected@) is None && i
                < ts@.len(),
            Some(m) => spec_try_to_match(ts.deep_view(), i as int, expected@) == Some(m@),
        }),
{
    let n = ts.len();
    proof {
        assert(ts.deep_view().len() == n);
    }
    if i >= n {
        let mut msg = String::from_str("Expected ");
        msg.append(expected.text().as_str());
        msg.append(" but got nothing");
        return Some(msg);
    }
    let fqt = slice_index_get(ts, i);
    proof {
        assert(ts.deep_view()[i as int] == ts@[i as int].deep_view());
    }
    if token_eq(&fqt.token, expected) {
        None
    } else {
        let mut msg = String::from_str("Expected : but got ");
        msg.append(fqt.token.text().as_str());
        match error_with_info::<Expression>(msg, fqt) {
            Err(m) => Some(m),
            Ok(_) => {
                proof {
                    assert(false);
                }
                None
            },
        }
    }
}

/// The declared type of a name: the first parameter with that name wins,
/// then the first prior local declaration of it; everything later is
/// shadowed by the first declaration.
pub open spec fn spec_find_type_in_params(name: Seq<char>, params: Seq<SpecParam>) -> Option<
    Seq<char>,
>
    decreases params.len(),
{
    if params.len() == 0 {
        None
    } else if params.first().name == name {
        Some(params.first().ty)
    } else {
        spec_find_type_in_params(name, params.drop_first())
    }
}

pub open spec fn spec_find_type_in_priors(name: Seq<char>, priors: Seq<SpecExpression>) -> Option<
    Seq<char>,
>
    decreases priors.len(),
{
    if priors.len() == 0 {
        None
    } else {
        match priors.first() {
            SpecExpression::LocalAssign { name: n, ty, expression } => if n == name {
                Some(ty)
            } else {
                spec_find_type_in_priors(name, priors.drop_first())
            },
            _ => spec_find_type_in_priors(name, priors.drop_first()),
        }
    }
}

pub open spec fn spec_find_type(
    name: Seq<char>,
    priors: Seq<SpecExpression>,
    params: Seq<SpecParam>,
) -> Result<Seq<char>, Seq<char>> {
    match spec_find_type_in_params(name, params) {
        Some(t) => Ok(t),
        None => match spec_find_type_in_priors(name, priors) {
            Some(t) => Ok(t),
            None => Err("Couldn't find type for variable "@ + name),
        },
    }
}

fn find_type(
    variable_name: &str,
    previous_expressions: &Vec<Expression>,
    local_params: &Vec<Param>,
) -> (r: Result<String, String>)
    ensures
        (match r {
            Ok(t) => spec_find_type(
                variable_name@,
                previous_expressions.deep_view(),
                local_params.deep_view(),
            ) == Ok::<Seq<char>, Seq<char>>(t@),
            Err(m) => spec_find_type(
                variable_name@,
                previous_expressions.deep_view(),
                local_params.deep_view(),
            ) == Err::<Seq<char>, Seq<char>>(m@),
        }),
{
    let ghost pv = previous_expressions.deep_view();
    let ghost mv = local_params.deep_view();
    let mut i: usize = 0;
    proof {
        assert(mv.skip(0) =~= mv);
    }
    while i < local_params.len()
        invariant
            i <= mv.len(),
            mv == local_params.deep_view(),
            mv.len() == local_params@.len(),
            spec_find_type_in_params(variable_name@, mv) == spec_find_type_in_params(
                variable_name@,
                mv.skip(i as int),
            ),
        decreases mv.len() - i,
    {
        proof {
            assert(mv[i as int] == local_params@[i as int].deep_view());
            assert(mv.skip(i as int).first() == mv[i as int]);
            assert(mv.skip(i as int).drop_first() =~= mv.skip(i as int + 1));
        }
        let p = &local_params[i];
        if str_eq(p.name.as_str(), variable_name) {
            return Ok(p.ty.clone());
        }
        i += 1;
    }
    proof {
        assert(mv.skip(mv.len() as int).len() == 0);
    }
    let mut k: usize = 0;
    proof {
        assert(pv.skip(0) =~= pv);
    }
    while k < previous_expressions.len()
        invariant
            k <= pv.len(),
            pv == previous_expressions.deep_view(),
            pv.len() == previous_expressions@.len(),
            spec_find_type_in_params(variable_name@, mv) is None,
            mv == local_params.deep_view(),
            spec_find_type_in_priors(variable_name@, pv) == spec_find_type_in_priors(
                variable_name@,
                pv.skip(k as int),
            ),
        decreases pv.len() - k,
    {
        proof {
            assert(pv[k as int] == previous_expressions@[k as int].deep_view());
            assert(pv.skip(k as int).first() == pv[k as int]);
            assert(pv.skip(k as int).drop_first() =~= pv.skip(k as int + 1));
        }
        let e = &previous_expressions[k];
        match e {
            Expression::LocalAssign { name, ty, expression } => {
                if str_eq(name.as_str(), variable_name) {
                    return Ok(ty.clone());
                }
            },
            _ => {},
        }
        k += 1;
    }
    proof {
        assert(pv.skip(pv.len() as int).len() == 0);
    }
    let mut msg = String::from_str("Couldn't find type for variable ");
    msg.append(variable_name);
    Err(msg)
}

/// A bare numeric literal takes the type its context declares; anything
/// else passes unchanged.
pub open spec fn spec_number_as(e: SpecExpression, t: Seq<char>) -> SpecExpression {
    match e {
        SpecExpression::Number { value, ty } => SpecExpression::Number { value, ty: t },
        _ => e,
    }
}

fn number_as(e: Expression, t: &str) -> (r: Expression)
    ensures
        r@ == spec_number_as(e@, t@),
{
    match e {
        Expression::Number { value, ty } => Expression::Number { value, ty: t.to_owned() },
        other => other,
    }
}

pub open spec fn msg_ran_out() -> Seq<char> {
    "Failed parsing expression, ran out of tokens"@
}

pub open spec fn msg_expect_var() -> Seq<char> {
    "Failed parsing expression, was expecting an identifier token for the variable name"@
}

pub open spec fn msg_expect_type() -> Seq<char> {
    "Failed parsing expression, was expecting an identifier token for the type name"@
}

pub open spec fn msg_unexpected_token(t: SpecToken) -> Seq<char> {
    "Failed parsing expression, got unexpected token "@ + spec_token_text(t)
}

pub open spec fn msg_failed_params() -> Seq<char> {
    "Failed parsing params"@
}

} // verus!
verus! {

/// Parsing each argument window in order; the first failure wins.
/// `bound` exists only so that the mutual recursion with
/// `spec_parse_expression` terminates: callers pass one that dominates
/// every window (a call's split guarantees it), so the guard branch
/// below is never reached and decides nothing about the parse.
pub open spec fn spec_parse_args_list(
    ws: Seq<Seq<SpecFqt>>,
    priors: Seq<SpecExpression>,
    params: Seq<SpecParam>,
    bound: nat,
) -> Result<Seq<SpecExpression>, Seq<char>>
    decreases bound, 0int, ws.len(),
{
    if ws.len() == 0 {
        Ok(Seq::empty())
    } else if !(ws.first().len() < bound) {
        Err(Seq::empty())
    } else {
        match spec_parse_expression(ws.first(), priors, params) {
            Err(e) => Err(e),
            Ok(exp) => match spec_parse_args_list(ws.drop_first(), priors, params, bound) {
                Err(e) => Err(e),
                Ok(rest) => Ok(seq![exp] + rest),
            },
        }
    }
}

/// Parsing a statement list in order, empty groups skipped; the first
/// failure wins. As with the argument windows, `bound` only serves
/// termination: every group of a split is shorter than the bound the
/// callers pass, so the guard branch below is never reached.
pub open spec fn spec_parse_body_list(
    groups: Seq<Seq<SpecFqt>>,
    priors: Seq<SpecExpression>,
    params: Seq<SpecParam>,
    bound: nat,
) -> Result<Seq<SpecExpression>, Seq<char>>
    decreases bound, 0int, groups.len(),
{
    if groups.len() == 0 {
        Ok(Seq::empty())
    } else if groups.first().len() == 0 {
        spec_parse_body_list(groups.drop_first(), priors, params, bound)
    } else if !(groups.first().len() < bound) {
        Err(Seq::empty())
    } else {
        match spec_parse_expression(groups.first(), priors, params) {
            Err(e) => Err(e),
            Ok(exp) => match spec_parse_body_list(groups.drop_first(), priors, params, bound) {
                Err(e) => Err(e),
                Ok(rest) => Ok(seq![exp] + rest),
            },
        }
    }
}

/// A `local` declaration: name, colon, type, equals, then the bound
/// expression, whose bare numeric literal takes the declared type.
pub open spec fn spec_parse_local(
    ts: Seq<SpecFqt>,
    j: int,
    priors: Seq<SpecExpression>,
    params: Seq<SpecParam>,
) -> Result<SpecExpression, Seq<char>>
    decreases ts.len(), 0int, 0int,
{
    if !(0 <= j && j + 1 < ts.len()) {
        Err(msg_expect_var())
    } else {
        match ts[j + 1].token {
            SpecToken::Identifier { body: name } => {
                match spec_try_to_match(ts, j + 2, SpecToken::Colon) {
                    Some(e) => Err(e),
                    None => {
                        if !(j + 3 < ts.len()) {
                            Err(msg_expect_type())
                        } else {
                            match ts[j + 3].token {
                                SpecToken::Identifier { body: tyname } => {
                                    match spec_try_to_match(ts, j + 4, SpecToken::Assign) {
                                        Some(e) => Err(e),
                                        None => match spec_parse_expression(
                                            ts.skip(j + 5),
                                            priors,
                                            params,
                                        ) {
                                            Err(e) => Err(e),
                                            Ok(exp) => Ok(
                                                SpecExpression::LocalAssign {
                                                    name,
                                                    ty: tyname,
                                                    expression: Box::new(
                                                        spec_number_as(exp, tyname),
                                                    ),
                                                },
                                            ),
                                        },
                                    }
                                },
                                _ => Err(
                                    spec_error_with_info(
                                        msg_unexpected_token(ts[j + 3].token),
                                        ts[j + 3].line,
                                        ts[j + 3].index,
                                    ),
                                ),
                            }
                        }
                    },
                }
            },
            _ => Err(msg_unexpected_token(ts[j + 1].token)),
        }
    }
}

/// A `global` declaration: as `local`, but the bound expression keeps
/// its own type.
pub open spec fn spec_parse_global(
    ts: Seq<SpecFqt>,
    j: int,
    priors: Seq<SpecExpression>,
    params: Seq<SpecParam>,
) -> Result<SpecExpression, Seq<char>>
    decreases ts.len(), 0int, 0int,
{
    if !(0 <= j && j + 1 < ts.len()) {
        Err(msg_expect_var())
    } else {
        match ts[j + 1].token {
            SpecToken::Identifier { body: name } => {
                match spec_try_to_match(ts, j + 2, SpecToken::Colon) {
                    Some(e) => Err(e),
                    None => {
                        if !(j + 3 < ts.len()) {
                            Err(msg_expect_type())
                        } else {
                            match ts[j + 3].token {
                                SpecToken::Identifier { body: tyname } => {
                                    match spec_try_to_match(ts, j + 4, SpecToken::Assign) {
                                        Some(e) => Err(e),
                                        None => match spec_parse_expression(
                                            ts.skip(j + 5),
                                            priors,
                                            params,
                                        ) {
                                            Err(e) => Err(e),
                                            Ok(exp) => Ok(
                                                SpecExpression::GlobalAssign {
                                                    name,
                                                    ty: tyname,
                                                    expression: Box::new(
                                                        spec_number_as(exp, tyname),
                                                    ),
                                                },
                                            ),
                                        },
                                    }
                                },
                                _ => Err(msg_unexpected_token(ts[j + 3].token)),
                            }
                        }
                    },
                }
            },
            _ => Err(
                spec_error_with_info(
                    msg_unexpected_token(ts[j + 1].token),
                    ts[j + 1].line,
                    ts[j + 1].index,
                ),
            ),
        }
    }
}

/// A leading identifier: a call when a parenthesis follows, a variable
/// reference resolved against the context when nothing follows.
pub open spec fn spec_parse_identifier(
    ts: Seq<SpecFqt>,
    j: int,
    body: Seq<char>,
    priors: Seq<SpecExpression>,
    params: Seq<SpecParam>,
) -> Result<SpecExpression, Seq<char>>
    decreases ts.len(), 0int, 0int,
{
    if !(0 <= j) {
        Err(msg_ran_out())
    } else if j + 1 < ts.len() {
        match ts[j + 1].token {
            SpecToken::LeftParen => {
                match spec_split_args(ts.skip(j + 2)) {
                    None => Err(msg_failed_params()),
                    Some(ws) => match spec_parse_args_list(
                        ws,
                        priors,
                        params,
                        ts.skip(j + 2).len() as nat,
                    ) {
                        Err(e) => Err(e),
                        Ok(args) => Ok(SpecExpression::FunctionCall { name: body, args }),
                    },
                }
            },
            _ => Err(
                spec_error_with_info(
                    "Unexpected token "@ + spec_token_text(ts[j + 1].token),
                    ts[j + 1].line,
                    ts[j + 1].index,
                ),
            ),
        }
    } else {
        match spec_find_type(body, priors, params) {
            Ok(t) => Ok(SpecExpression::Variable { body, ty: t }),
            Err(e) => Err(e),
        }
    }
}

/// An `if`: the parenthesised predicate, then the first braced window
/// as the success branch and the braced window after it as the failure
/// branch, each window running to the brace that matches its opener.
pub open spec fn spec_parse_if(
    ts: Seq<SpecFqt>,
    j: int,
    priors: Seq<SpecExpression>,
    params: Seq<SpecParam>,
) -> Result<SpecExpression, Seq<char>>
    decreases ts.len(), 0int, 0int,
{
    if !(0 <= j < ts.len()) {
        Err(msg_ran_out())
    } else {
        let ts2 = ts.skip(j + 1);
        let p_open = spec_first_index(ts2, 0, SpecToken::LeftParen);
        let p_close = spec_find_top(
            ts2,
            p_open + 1,
            0,
            SpecToken::LeftParen,
            SpecToken::RightParen,
            SpecToken::RightParen,
        );
        if !(0 <= p_open && p_open < p_close && p_close < ts2.len()) {
            Err("Couldn't find predicate tokens"@)
        } else {
            match spec_parse_expression(ts2.subrange(p_open + 1, p_close), priors, params) {
                Err(e) => Err(e),
                Ok(predicate) => {
                    let s_open = spec_first_index(ts2, 0, SpecToken::LeftBracket);
                    let s_close = spec_find_top(
                        ts2,
                        s_open + 1,
                        0,
                        SpecToken::LeftBracket,
                        SpecToken::RightBracket,
                        SpecToken::RightBracket,
                    );
                    if !(0 <= s_open && s_open < s_close && s_close < ts2.len()) {
                        Err("Couldn't find success tokens"@)
                    } else {
                        match spec_parse_expression(
                            ts2.subrange(s_open + 1, s_close),
                            priors,
                            params,
                        ) {
                            Err(e) => Err(e),
                            Ok(success) => {
                                let f_open = spec_first_index(
                                    ts2,
                                    s_close + 1,
                                    SpecToken::LeftBracket,
                                );
                                let f_close = spec_find_top(
                                    ts2,
                                    f_open + 1,
                                    0,
                                    SpecToken::LeftBracket,
                                    SpecToken::RightBracket,
                                    SpecToken::RightBracket,
                                );
                                if !(0 <= f_open && f_open < f_close && f_close < ts2.len()) {
                                    Err("Couldn't find fail tokens"@)
                                } else {
                                    match spec_parse_expression(
                                        ts2.subrange(f_open + 1, f_close),
                                        priors,
                                        params,
                                    ) {
                                        Err(e) => Err(e),
                                        Ok(fail) => Ok(
                                            SpecExpression::IfStatement {
                                                predicate: Box::new(predicate),
                                                success: Box::new(success),
                                                fail: Box::new(fail),
                                            },
                                        ),
                                    }
                                }
                            },
                        }
                    }
                },
            }
        }
    }
}

/// A `for`: within the parenthesised header, the initializer up to the
/// first top-level comma, the condition up to the second, and the
/// incrementor up to the parenthesis that matches the opener; the body
/// is the first braced window, to its matching brace. The initializer
/// joins the context before the rest is parsed, and bare numeric
/// literals in condition and incrementor default to a 32-bit integer.
pub open spec fn spec_parse_for(
    ts: Seq<SpecFqt>,
    j: int,
    priors: Seq<SpecExpression>,
    params: Seq<SpecParam>,
) -> Result<SpecExpression, Seq<char>>
    decreases ts.len(), 0int, 0int,
{
    if !(0 <= j < ts.len()) {
        Err(msg_ran_out())
    } else {
        let ts2 = ts.skip(j + 1);
        let p_open = spec_first_index(ts2, 0, SpecToken::LeftParen);
        let c1 = spec_find_top(
            ts2,
            p_open + 1,
            0,
            SpecToken::LeftParen,
            SpecToken::RightParen,
            SpecToken::Comma,
        );
        if !(0 <= p_open && p_open < c1 && c1 < ts2.len()) {
            Err("Couldn't find initializer tokens"@)
        } else {
            match spec_parse_expression(ts2.subrange(p_open + 1, c1), priors, params) {
                Err(e) => Err(e),
                Ok(initializer) => {
                    let priors2 = priors.push(initializer);
                    let c2 = spec_find_top(
                        ts2,
                        c1 + 1,
                        0,
                        SpecToken::LeftParen,
                        SpecToken::RightParen,
                        SpecToken::Comma,
                    );
                    if !(c1 < c2 && c2 < ts2.len()) {
                        Err("Couldn't find conditional tokens"@)
                    } else {
                        match spec_parse_expression(ts2.subrange(c1 + 1, c2), priors2, params) {
                            Err(e) => Err(e),
                            Ok(cond0) => {
                                let rp = spec_find_top(
                                    ts2,
                                    c2 + 1,
                                    0,
                                    SpecToken::LeftParen,
                                    SpecToken::RightParen,
                                    SpecToken::RightParen,
                                );
                                if !(c2 < rp && rp < ts2.len()) {
                                    Err("Couldn't find incrementor tokens"@)
                                } else {
                                    match spec_parse_expression(
                                        ts2.subrange(c2 + 1, rp),
                                        priors2,
                                        params,
                                    ) {
                                        Err(e) => Err(e),
                                        Ok(incr0) => {
                                            let b_open = spec_first_index(
                                                ts2,
                                                0,
                                                SpecToken::LeftBracket,
                                            );
                                            let b_close = spec_find_top(
                                                ts2,
                                                b_open + 1,
                                                0,
                                                SpecToken::LeftBracket,
                                                SpecToken::RightBracket,
                                                SpecToken::RightBracket,
                                            );
                                            if !(0 <= b_open && b_open < b_close && b_close
                                                < ts2.len()) {
                                                Err("Couldn't find body tokens"@)
                                            } else {
                                                match spec_parse_body_list(
                                                    spec_split_statements(
                                                        ts2.subrange(b_open + 1, b_close),
                                                    ),
                                                    priors2,
                                                    params,
                                                    (b_close - b_open) as nat,
                                                ) {
                                                    Err(e) => Err(e),
                                                    Ok(body) => Ok(
                                                        SpecExpression::ForStatement {
                                                            initial_value: Box::new(initializer),
                                                            incrementor: Box::new(
                                                                spec_number_as(incr0, "i32"@),
                                                            ),
                                                            break_condition: Box::new(
                                                                spec_number_as(cond0, "i32"@),
                                                            ),
                                                            body,
                                                        },
                                                    ),
                                                }
                                            }
                                        },
                                    }
                                }
                            },
                        }
                    }
                },
            }
        }
    }
}

/// What parsing one statement's tokens yields. A plus outside any
/// assignment splits the statement at its first occurrence; otherwise
/// the leading token decides, closing braces are passed over, and an
/// exhausted stream is an error.
pub open spec fn spec_parse_expression(
    ts: Seq<SpecFqt>,
    priors: Seq<SpecExpression>,
    params: Seq<SpecParam>,
) -> Result<SpecExpression, Seq<char>>
    decreases ts.len(), 1int, 0int,
{
    let plus_at = spec_first_index(ts, 0, SpecToken::Plus);
    if 0 <= plus_at && plus_at < ts.len() && !spec_has_token(ts, SpecToken::Assign) {
        match spec_parse_expression(ts.take(plus_at), priors, params) {
            Err(e) => Err(e),
            Ok(left) => match spec_parse_expression(ts.skip(plus_at + 1), priors, params) {
                Err(e) => Err(e),
                Ok(right) => Ok(
                    SpecExpression::Addition { left: Box::new(left), right: Box::new(right) },
                ),
            },
        }
    } else {
        let j = spec_skip_right_brackets(ts, 0);
        if !(0 <= j && j < ts.len()) {
            Err(msg_ran_out())
        } else {
            match ts[j].token {
                SpecToken::Return => (match spec_parse_expression(ts.skip(j + 1), priors, params) {
                    Err(e) => Err(e),
                    Ok(exp) => Ok(SpecExpression::Return { expression: Box::new(exp) }),
                }),
                SpecToken::Local => spec_parse_local(ts, j, priors, params),
                SpecToken::Global => spec_parse_global(ts, j, priors, params),
                SpecToken::Identifier { body } => spec_parse_identifier(ts, j, body, priors, params),
                SpecToken::Text { body } => Ok(SpecExpression::String { body }),
                SpecToken::Number { body } => Ok(
                    SpecExpression::Number { value: body, ty: "f32"@ },
                ),
                SpecToken::If => spec_parse_if(ts, j, priors, params),
                SpecToken::True => Ok(SpecExpression::Boolean { value: true }),
                SpecToken::False => Ok(SpecExpression::Boolean { value: false }),
                SpecToken::For => spec_parse_for(ts, j, priors, params),
                _ => Err(
                    spec_error_with_info(
                        msg_unexpected_token(ts[j].token),
                        ts[j].line,
                        ts[j].index,
                    ),
                ),
            }
        }
    }
}

/// Every statement group a split yields fits in the tokens it came from,
/// on top of whatever had accumulated.
pub proof fn lemma_split_statements_bound(ts: Seq<SpecFqt>, depth: int, cur: Seq<SpecFqt>)
    ensures
        forall|k: int|
            0 <= k < crate::tokenizer::spec_split_statements_at(ts, depth, cur).len() ==> (
            #[trigger] crate::tokenizer::spec_split_statements_at(ts, depth, cur)[k]).len()
                <= cur.len() + ts.len(),
    decreases ts.len(),
{
    if ts.len() != 0 {
        let t = ts.first();
        let r = crate::tokenizer::spec_split_statements_at(ts, depth, cur);
        if t.token is LeftBracket {
            lemma_split_statements_bound(ts.drop_first(), depth + 1, cur.push(t));
            let r2 = crate::tokenizer::spec_split_statements_at(ts.drop_first(), depth + 1, cur.push(t));
            assert forall|k: int| 0 <= k < r.len() implies (#[trigger] r[k]).len() <= cur.len() + ts.len() by {
                assert(r[k] == r2[k]);
            }
        } else if t.token is RightBracket && depth > 0 {
            lemma_split_statements_bound(ts.drop_first(), depth - 1, cur.push(t));
            let r2 = crate::tokenizer::spec_split_statements_at(ts.drop_first(), depth - 1, cur.push(t));
            assert forall|k: int| 0 <= k < r.len() implies (#[trigger] r[k]).len() <= cur.len() + ts.len() by {
                assert(r[k] == r2[k]);
            }
        } else if t.token is Semicolon && depth == 0 {
            lemma_split_statements_bound(ts.drop_first(), 0, Seq::empty());
            let r2 = crate::tokenizer::spec_split_statements_at(ts.drop_first(), 0, Seq::empty());
            assert forall|k: int| 0 <= k < r.len() implies (#[trigger] r[k]).len() <= cur.len() + ts.len() by {
                if k == 0 {
                    assert(r[k] == cur);
                } else {
                    assert(r[k] == r2[k - 1]);
                }
            }
        } else {
            lemma_split_statements_bound(ts.drop_first(), depth, cur.push(t));
            let r2 = crate::tokenizer::spec_split_statements_at(ts.drop_first(), depth, cur.push(t));
            assert forall|k: int| 0 <= k < r.len() implies (#[trigger] r[k]).len() <= cur.len() + ts.len() by {
                assert(r[k] == r2[k]);
            }
        }
    }
}

} // verus!
verus! {

proof fn lemma_view_push(a: Seq<Expression>, x: Expression)
    ensures
        view_expr_seq(a.push(x)) == view_expr_seq(a).push(view_expr(x)),
{
    lemma_view_expr_seq_index(a);
    lemma_view_expr_seq_index(a.push(x));
    assert(view_expr_seq(a.push(x)) =~= view_expr_seq(a).push(view_expr(x)));
}

pub(crate) fn slice_to_vec_fqt(ts: &[FullyQualifiedToken]) -> (r: Vec<FullyQualifiedToken>)
    ensures
        r@ == ts@,
        r.deep_view() == ts.deep_view(),
{
    let mut out: Vec<FullyQualifiedToken> = Vec::new();
    let mut i: usize = 0;
    while i < ts.len()
        invariant
            i <= ts@.len(),
            out@ =~= ts@.take(i as int),
        decreases ts@.len() - i,
    {
        out.push(clone_fqt(slice_index_get(ts, i)));
        proof {
            assert(out@ =~= ts@.take(i as int + 1));
        }
        i += 1;
    }
    proof {
        assert(ts@.take(ts@.len() as int) =~= ts@);
        assert(out.deep_view() =~= ts.deep_view());
    }
    out
}

fn push_context(priors: &Vec<Expression>, extra: &Expression) -> (r: Vec<Expression>)
    ensures
        r.deep_view() == priors.deep_view().push(extra@),
{
    let mut out: Vec<Expression> = Vec::new();
    let mut i: usize = 0;
    while i < priors.len()
        invariant
            i <= priors@.len(),
            out@.len() == i,
            priors.deep_view().len() == priors@.len(),
            forall|j: int|
                0 <= j < i ==> view_expr(#[trigger] out@[j]) == priors.deep_view()[j],
        decreases priors@.len() - i,
    {
        out.push(clone_expr(&priors[i]));
        i += 1;
    }
    out.push(clone_expr(extra));
    proof {
        assert(out.deep_view() =~= priors.deep_view().push(extra@));
    }
    out
}

/// Parses a `local` declaration beginning at position `j`, returning
/// exactly what `spec_parse_local` gives.
fn parse_local_stmt(
    tokens: &[FullyQualifiedToken],
    j: usize,
    previous_expressions: &Vec<Expression>,
    local_params: &Vec<Param>,
) -> (r: Result<Expression, String>)
    requires
        j < tokens@.len(),
    ensures
        (match r {
            Ok(e) => spec_parse_local(
                tokens.deep_view(),
                j as int,
                previous_expressions.deep_view(),
                local_params.deep_view(),
            ) == Ok::<SpecExpression, Seq<char>>(e@),
            Err(m) => spec_parse_local(
                tokens.deep_view(),
                j as int,
                previous_expressions.deep_view(),
                local_params.deep_view(),
            ) == Err::<SpecExpression, Seq<char>>(m@),
        }),
    decreases tokens@.len(), 0int,
{
    let ghost dv = tokens.deep_view();
    let n = tokens.len();
    proof {
        assert(dv.len() == n);
    }
    if j + 1 >= n {
        return Err(
            String::from_str(
                "Failed parsing expression, was expecting an identifier token for the variable name",
            ),
        );
    }
    let name_fqt = slice_index_get(tokens, j + 1);
    proof {
        assert(dv[j as int + 1] == tokens@[j as int + 1].deep_view());
    }
    match &name_fqt.token {
        Token::Identifier { body: name } => {
            match try_to_match(tokens, j + 2, &Token::Colon) {
                Some(e) => Err(e),
                None => {
                    if j + 3 >= n {
                        return Err(
                            String::from_str(
                                "Failed parsing expression, was expecting an identifier token for the type name",
                            ),
                        );
                    }
                    let ty_fqt = slice_index_get(tokens, j + 3);
                    proof {
                        assert(dv[j as int + 3] == tokens@[j as int + 3].deep_view());
                    }
                    match &ty_fqt.token {
                        Token::Identifier { body: tyname } => {
                            match try_to_match(tokens, j + 4, &Token::Assign) {
                                Some(e) => Err(e),
                                None => {
                                    let rest = slice_subrange(tokens, j + 5, n);
                                    proof {
                                        assert(rest.deep_view() =~= dv.skip(j as int + 5));
                                    }
                                    match parse_expression(
                                        rest,
                                        previous_expressions,
                                        local_params,
                                    ) {
                                        Err(e) => Err(e),
                                        Ok(exp) => {
                                            let retyped = number_as(exp, tyname.as_str());
                                            Ok(
                                                Expression::LocalAssign {
                                                    name: name.clone(),
                                                    ty: tyname.clone(),
                                                    expression: Box::new(retyped),
                                                },
                                            )
                                        },
                                    }
                                },
                            }
                        },
                        _ => {
                            let mut msg = String::from_str(
                                "Failed parsing expression, got unexpected token ",
                            );
                            msg.append(ty_fqt.token.text().as_str());
                            error_with_info(msg, ty_fqt)
                        },
                    }
                },
            }
        },
        _ => {
            let mut msg = String::from_str("Failed parsing expression, got unexpected token ");
            msg.append(name_fqt.token.text().as_str());
            Err(msg)
        },
    }
}

/// Parses a `global` declaration beginning at position `j`, returning
/// exactly what `spec_parse_global` gives.
fn parse_global_stmt(
    tokens: &[FullyQualifiedToken],
    j: usize,
    previous_expressions: &Vec<Expression>,
    local_params: &Vec<Param>,
) -> (r: Result<Expression, String>)
    requires
        j < tokens@.len(),
    ensures
        (match r {
            Ok(e) => spec_parse_global(
                tokens.deep_view(),
                j as int,
                previous_expressions.deep_view(),
                local_params.deep_view(),
            ) == Ok::<SpecExpression, Seq<char>>(e@),
            Err(m) => spec_parse_global(
                tokens.deep_view(),
                j as int,
                previous_expressions.deep_view(),
                local_params.deep_view(),
            ) == Err::<SpecExpression, Seq<char>>(m@),
        }),
    decreases tokens@.len(), 0int,
{
    let ghost dv = tokens.deep_view();
    let n = tokens.len();
    proof {
        assert(dv.len() == n);
    }
    if j + 1 >= n {
        return Err(
            String::from_str(
                "Failed parsing expression, was expecting an identifier token for the variable name",
            ),
        );
    }
    let name_fqt = slice_index_get(tokens, j + 1);
    proof {
        assert(dv[j as int + 1] == tokens@[j as int + 1].deep_view());
    }
    match &name_fqt.token {
        Token::Identifier { body: name } => {
            match try_to_match(tokens, j + 2, &Token::Colon) {
                Some(e) => Err(e),
                None => {
                    if j + 3 >= n {
                        return Err(
                            String::from_str(
                                "Failed parsing expression, was expecting an identifier token for the type name",
                            ),
                        );
                    }
                    let ty_fqt = slice_index_get(tokens, j + 3);
                    proof {
                        assert(dv[j as int + 3] == tokens@[j as int + 3].deep_view());
                    }
                    match &ty_fqt.token {
                        Token::Identifier { body: tyname } => {
                            match try_to_match(tokens, j + 4, &Token::Assign) {
                                Some(e) => Err(e),
                                None => {
                                    let rest = slice_subrange(tokens, j + 5, n);
                                    proof {
                                        assert(rest.deep_view() =~= dv.skip(j as int + 5));
                                    }
                                    match parse_expression(
                                        rest,
                                        previous_expressions,
                                        local_params,
                                    ) {
                                        Err(e) => Err(e),
                                        Ok(exp) => {
                                            let retyped = number_as(exp, tyname.as_str());
                                            Ok(
                                                Expression::GlobalAssign {
                                                    name: name.clone(),
                                                    ty: tyname.clone(),
                                                    expression: Box::new(retyped),
                                                },
                                            )
                                        },
                                    }
                                },
                            }
                        },
                        _ => {
                            let mut msg = String::from_str(
                                "Failed parsing expression, got unexpected token ",
                            );
                            msg.append(ty_fqt.token.text().as_str());
                            Err(msg)
                        },
                    }
                },
            }
        },
        _ => {
            let mut msg = String::from_str("Failed parsing expression, got unexpected token ");
            msg.append(name_fqt.token.text().as_str());
            error_with_info(msg, name_fqt)
        },
    }
}

/// Parses what follows a leading identifier: a call's argument list, or
/// a variable reference, returning exactly what `spec_parse_identifier`
/// gives.
#[verifier::loop_isolation(false)]
fn parse_identifier_stmt(
    tokens: &[FullyQualifiedToken],
    j: usize,
    body: &String,
    previous_expressions: &Vec<Expression>,
    local_params: &Vec<Param>,
) -> (r: Result<Expression, String>)
    requires
        j < tokens@.len(),
    ensures
        (match r {
            Ok(e) => spec_parse_identifier(
                tokens.deep_view(),
                j as int,
                body@,
                previous_expressions.deep_view(),
                local_params.deep_view(),
            ) == Ok::<SpecExpression, Seq<char>>(e@),
            Err(m) => spec_parse_identifier(
                tokens.deep_view(),
                j as int,
                body@,
                previous_expressions.deep_view(),
                local_params.deep_view(),
            ) == Err::<SpecExpression, Seq<char>>(m@),
        }),
    decreases tokens@.len(), 0int,
{
    let ghost dv = tokens.deep_view();
    let ghost pv = previous_expressions.deep_view();
    let ghost mv = local_params.deep_view();
    let n = tokens.len();
    proof {
        assert(dv.len() == n);
    }
    if j + 1 < n {
        let next_fqt = slice_index_get(tokens, j + 1);
        proof {
            assert(dv[j as int + 1] == tokens@[j as int + 1].deep_view());
        }
        match &next_fqt.token {
            Token::LeftParen => {
                let rest = slice_subrange(tokens, j + 2, n);
                proof {
                    assert(rest.deep_view() =~= dv.skip(j as int + 2));
                }
                match split_call_args(rest) {
                    None => Err(String::from_str("Failed parsing params")),
                    Some(windows) => {
                        let ghost ws = windows.deep_view();
                        let ghost bound = rest@.len() as nat;
                        let mut args: Vec<Expression> = Vec::new();
                        let mut k: usize = 0;
                        proof {
                            assert(ws.skip(0) =~= ws);
                            assert(view_expr_seq(args@) =~= Seq::<SpecExpression>::empty());
                            assert(ws.len() == windows@.len());
                        }
                        while k < windows.len()
                            invariant
                                k <= windows@.len(),
                                (match spec_parse_args_list(ws.skip(k as int), pv, mv, bound) {
                                    Ok(tail) => spec_parse_args_list(ws, pv, mv, bound) == Ok::<
                                        Seq<SpecExpression>,
                                        Seq<char>,
                                    >(view_expr_seq(args@) + tail),
                                    Err(e) => spec_parse_args_list(ws, pv, mv, bound) == Err::<
                                        Seq<SpecExpression>,
                                        Seq<char>,
                                    >(e),
                                }),
                            decreases windows@.len() - k,
                        {
                            proof {
                                assert(ws.skip(k as int).first() == ws[k as int]);
                                assert(ws.skip(k as int).drop_first() =~= ws.skip(k as int + 1));
                                assert(ws[k as int] == windows@[k as int].deep_view());
                            }
                            let w = &windows[k];
                            let ghost pre_args = args@;
                            match parse_expression(w.as_slice(), previous_expressions, local_params) {
                                Err(e) => {
                                    proof {
                                        assert(spec_parse_args_list(ws.skip(k as int), pv, mv, bound)
                                            == Err::<Seq<SpecExpression>, Seq<char>>(e@));
                                    }
                                    return Err(e);
                                },
                                Ok(exp) => {
                                    let ghost exv = exp;
                                    let ghost ev = exp@;
                                    args.push(exp);
                                    proof {
                                        assert(args@ =~= pre_args.push(exv));
                                        lemma_view_push(pre_args, exv);
                                        if spec_parse_args_list(
                                            ws.skip(k as int + 1),
                                            pv,
                                            mv,
                                            bound,
                                        ) is Ok {
                                            let tail = spec_parse_args_list(
                                                ws.skip(k as int + 1),
                                                pv,
                                                mv,
                                                bound,
                                            )->Ok_0;
                                            assert(view_expr_seq(pre_args) + (seq![ev] + tail)
                                                =~= view_expr_seq(args@) + tail);
                                        }
                                    }
                                },
                            }
                            k += 1;
                        }
                        proof {
                            assert(ws.skip(windows@.len() as int).len() == 0);
                            assert(view_expr_seq(args@) + Seq::<SpecExpression>::empty()
                                =~= view_expr_seq(args@));
                        }
                        Ok(Expression::FunctionCall { name: body.clone(), args })
                    },
                }
            },
            _ => {
                let mut msg = String::from_str("Unexpected token ");
                msg.append(next_fqt.token.text().as_str());
                error_with_info(msg, next_fqt)
            },
        }
    } else {
        match find_type(body.as_str(), previous_expressions, local_params) {
            Ok(t) => Ok(Expression::Variable { body: body.clone(), ty: t }),
            Err(e) => Err(e),
        }
    }
}

/// Parses an `if` statement beginning at position `j`, returning exactly
/// what `spec_parse_if` gives.
fn parse_if_stmt(
    tokens: &[FullyQualifiedToken],
    j: usize,
    previous_expressions: &Vec<Expression>,
    local_params: &Vec<Param>,
) -> (r: Result<Expression, String>)
    requires
        j < tokens@.len(),
    ensures
        (match r {
            Ok(e) => spec_parse_if(
                tokens.deep_view(),
                j as int,
                previous_expressions.deep_view(),
                local_params.deep_view(),
            ) == Ok::<SpecExpression, Seq<char>>(e@),
            Err(m) => spec_parse_if(
                tokens.deep_view(),
                j as int,
                previous_expressions.deep_view(),
                local_params.deep_view(),
            ) == Err::<SpecExpression, Seq<char>>(m@),
        }),
    decreases tokens@.len(), 0int,
{
    let ghost dv = tokens.deep_view();
    let n = tokens.len();
    proof {
        assert(dv.len() == n);
    }
    let ts2 = slice_subrange(tokens, j + 1, n);
    let ghost dv2 = ts2.deep_view();
    proof {
        assert(dv2 =~= dv.skip(j as int + 1));
    }
    let n2 = ts2.len();
    let p_open = first_index_token(ts2, 0, &Token::LeftParen);
    if p_open >= n2 {
        proof {
            assert(spec_find_top(
                dv2,
                p_open as int + 1,
                0,
                SpecToken::LeftParen,
                SpecToken::RightParen,
                SpecToken::RightParen,
            ) == dv2.len());
        }
        return Err(String::from_str("Couldn't find predicate tokens"));
    }
    let p_close = find_top(ts2, p_open + 1, &Token::LeftParen, &Token::RightParen, &Token::RightParen);
    if p_close >= n2 {
        return Err(String::from_str("Couldn't find predicate tokens"));
    }
    let pred_w = slice_subrange(ts2, p_open + 1, p_close);
    proof {
        assert(pred_w.deep_view() =~= dv2.subrange(p_open as int + 1, p_close as int));
    }
    let predicate = match parse_expression(pred_w, previous_expressions, local_params) {
        Err(e) => {
            return Err(e);
        },
        Ok(v) => v,
    };
    let s_open = first_index_token(ts2, 0, &Token::LeftBracket);
    if s_open >= n2 {
        proof {
            assert(spec_find_top(
                dv2,
                s_open as int + 1,
                0,
                SpecToken::LeftBracket,
                SpecToken::RightBracket,
                SpecToken::RightBracket,
            ) == dv2.len());
        }
        return Err(String::from_str("Couldn't find success tokens"));
    }
    let s_close = find_top(ts2, s_open + 1, &Token::LeftBracket, &Token::RightBracket, &Token::RightBracket);
    if s_close >= n2 {
        return Err(String::from_str("Couldn't find success tokens"));
    }
    let succ_w = slice_subrange(ts2, s_open + 1, s_close);
    proof {
        assert(succ_w.deep_view() =~= dv2.subrange(s_open as int + 1, s_close as int));
    }
    let success = match parse_expression(succ_w, previous_expressions, local_params) {
        Err(e) => {
            return Err(e);
        },
        Ok(v) => v,
    };
    let f_open = first_index_token(ts2, s_close + 1, &Token::LeftBracket);
    if f_open >= n2 {
        proof {
            assert(spec_find_top(
                dv2,
                f_open as int + 1,
                0,
                SpecToken::LeftBracket,
                SpecToken::RightBracket,
                SpecToken::RightBracket,
            ) == dv2.len());
        }
        return Err(String::from_str("Couldn't find fail tokens"));
    }
    let f_close = find_top(ts2, f_open + 1, &Token::LeftBracket, &Token::RightBracket, &Token::RightBracket);
    if f_close >= n2 {
        return Err(String::from_str("Couldn't find fail tokens"));
    }
    let fail_w = slice_subrange(ts2, f_open + 1, f_close);
    proof {
        assert(fail_w.deep_view() =~= dv2.subrange(f_open as int + 1, f_close as int));
    }
    let fail = match parse_expression(fail_w, previous_expressions, local_params) {
        Err(e) => {
            return Err(e);
        },
        Ok(v) => v,
    };
    Ok(
        Expression::IfStatement {
            predicate: Box::new(predicate),
            success: Box::new(success),
            fail: Box::new(fail),
        },
    )
}

/// Parses a `for` statement beginning at position `j`, returning exactly
/// what `spec_parse_for` gives.
#[verifier::rlimit(100)]
#[verifier::loop_isolation(false)]
fn parse_for_stmt(
    tokens: &[FullyQualifiedToken],
    j: usize,
    previous_expressions: &Vec<Expression>,
    local_params: &Vec<Param>,
) -> (r: Result<Expression, String>)
    requires
        j < tokens@.len(),
    ensures
        (match r {
            Ok(e) => spec_parse_for(
                tokens.deep_view(),
                j as int,
                previous_expressions.deep_view(),
                local_params.deep_view(),
            ) == Ok::<SpecExpression, Seq<char>>(e@),
            Err(m) => spec_parse_for(
                tokens.deep_view(),
                j as int,
                previous_expressions.deep_view(),
                local_params.deep_view(),
            ) == Err::<SpecExpression, Seq<char>>(m@),
        }),
    decreases tokens@.len(), 0int,
{
    let ghost dv = tokens.deep_view();
    let ghost pv = previous_expressions.deep_view();
    let ghost mv = local_params.deep_view();
    let n = tokens.len();
    proof {
        assert(dv.len() == n);
    }
    let ts2 = slice_subrange(tokens, j + 1, n);
    let ghost dv2 = ts2.deep_view();
    proof {
        assert(dv2 =~= dv.skip(j as int + 1));
    }
    let n2 = ts2.len();
    let p_open = first_index_token(ts2, 0, &Token::LeftParen);
    if p_open >= n2 {
        proof {
            assert(spec_find_top(
                dv2,
                p_open as int + 1,
                0,
                SpecToken::LeftParen,
                SpecToken::RightParen,
                SpecToken::Comma,
            ) == dv2.len());
        }
        return Err(String::from_str("Couldn't find initializer tokens"));
    }
    let c1 = find_top(ts2, p_open + 1, &Token::LeftParen, &Token::RightParen, &Token::Comma);
    if c1 >= n2 {
        return Err(String::from_str("Couldn't find initializer tokens"));
    }
    let init_w = slice_subrange(ts2, p_open + 1, c1);
    proof {
        assert(init_w.deep_view() =~= dv2.subrange(p_open as int + 1, c1 as int));
    }
    let initializer = match parse_expression(init_w, previous_expressions, local_params) {
        Err(e) => {
            return Err(e);
        },
        Ok(v) => v,
    };
    let priors2 = push_context(previous_expressions, &initializer);
    let ghost p2v = priors2.deep_view();
    let c2 = find_top(ts2, c1 + 1, &Token::LeftParen, &Token::RightParen, &Token::Comma);
    if c2 >= n2 {
        return Err(String::from_str("Couldn't find conditional tokens"));
    }
    let cond_w = slice_subrange(ts2, c1 + 1, c2);
    proof {
        assert(cond_w.deep_view() =~= dv2.subrange(c1 as int + 1, c2 as int));
    }
    let cond0 = match parse_expression(cond_w, &priors2, local_params) {
        Err(e) => {
            return Err(e);
        },
        Ok(v) => v,
    };
    let conditional = number_as(cond0, "i32");
    let rp = find_top(ts2, c2 + 1, &Token::LeftParen, &Token::RightParen, &Token::RightParen);
    if rp >= n2 {
        return Err(String::from_str("Couldn't find incrementor tokens"));
    }
    let incr_w = slice_subrange(ts2, c2 + 1, rp);
    proof {
        assert(incr_w.deep_view() =~= dv2.subrange(c2 as int + 1, rp as int));
    }
    let incr0 = match parse_expression(incr_w, &priors2, local_params) {
        Err(e) => {
            return Err(e);
        },
        Ok(v) => v,
    };
    let incrementor = number_as(incr0, "i32");
    let b_open = first_index_token(ts2, 0, &Token::LeftBracket);
    if b_open >= n2 {
        proof {
            assert(spec_find_top(
                dv2,
                b_open as int + 1,
                0,
                SpecToken::LeftBracket,
                SpecToken::RightBracket,
                SpecToken::RightBracket,
            ) == dv2.len());
        }
        return Err(String::from_str("Couldn't find body tokens"));
    }
    let b_close = find_top(ts2, b_open + 1, &Token::LeftBracket, &Token::RightBracket, &Token::RightBracket);
    if b_close >= n2 {
        return Err(String::from_str("Couldn't find body tokens"));
    }
    let body_w = slice_subrange(ts2, b_open + 1, b_close);
    proof {
        assert(body_w.deep_view() =~= dv2.subrange(b_open as int + 1, b_close as int));
        assert(body_w@.len() + 1 == b_close - b_open);
    }
    let body_vec = slice_to_vec_fqt(body_w);
    let groups = split_by_semicolon_within_brackets(body_vec);
    let ghost gs = groups.deep_view();
    let ghost bound = (body_w@.len() + 1) as nat;
    proof {
        let ss = spec_split_statements(body_w.deep_view());
        assert(gs == ss);
        lemma_split_statements_bound(body_w.deep_view(), 0, Seq::empty());
        assert forall|k2: int| 0 <= k2 < gs.len() implies (#[trigger] gs[k2]).len() < bound by {
            assert(ss[k2].len() <= Seq::<SpecFqt>::empty().len() + body_w.deep_view().len());
        }
        assert(gs.skip(0) =~= gs);
    }
    let mut body: Vec<Expression> = Vec::new();
    let mut k: usize = 0;
    proof {
        assert(view_expr_seq(body@) =~= Seq::<SpecExpression>::empty());
    }
    while k < groups.len()
        invariant
            k <= groups@.len(),
            (match spec_parse_body_list(gs.skip(k as int), p2v, mv, bound) {
                Ok(tail) => spec_parse_body_list(gs, p2v, mv, bound) == Ok::<
                    Seq<SpecExpression>,
                    Seq<char>,
                >(view_expr_seq(body@) + tail),
                Err(e) => spec_parse_body_list(gs, p2v, mv, bound) == Err::<
                    Seq<SpecExpression>,
                    Seq<char>,
                >(e),
            }),
        decreases groups@.len() - k,
    {
        proof {
            assert(gs.skip(k as int).first() == gs[k as int]);
            assert(gs.skip(k as int).drop_first() =~= gs.skip(k as int + 1));
            assert(gs[k as int] == groups@[k as int].deep_view());
        }
        let g = &groups[k];
        if g.len() > 0 {
            let ghost pre_body = body@;
            match parse_expression(g.as_slice(), &priors2, local_params) {
                Err(e) => {
                    proof {
                        assert(spec_parse_body_list(gs.skip(k as int), p2v, mv, bound) == Err::<
                            Seq<SpecExpression>,
                            Seq<char>,
                        >(e@));
                    }
                    return Err(e);
                },
                Ok(exp) => {
                    let ghost exv = exp;
                    let ghost ev = exp@;
                    body.push(exp);
                    proof {
                        assert(body@ =~= pre_body.push(exv));
                        lemma_view_push(pre_body, exv);
                        if spec_parse_body_list(gs.skip(k as int + 1), p2v, mv, bound) is Ok {
                            let tail = spec_parse_body_list(
                                gs.skip(k as int + 1),
                                p2v,
                                mv,
                                bound,
                            )->Ok_0;
                            assert(view_expr_seq(pre_body) + (seq![ev] + tail) =~= view_expr_seq(
                                body@,
                            ) + tail);
                        }
                    }
                },
            }
        }
        k += 1;
    }
    proof {
        assert(gs.skip(groups@.len() as int).len() == 0);
        assert(view_expr_seq(body@) + Seq::<SpecExpression>::empty() =~= view_expr_seq(body@));
    }
    Ok(
        Expression::ForStatement {
            initial_value: Box::new(initializer),
            incrementor: Box::new(incrementor),
            break_condition: Box::new(conditional),
            body,
        },
    )
}

/// Parses one statement's tokens against the enclosing function's
/// context, returning exactly what `spec_parse_expression` gives: the
/// expression tree, or the diagnostic for the first failure.
#[verifier::rlimit(100)]
pub fn parse_expression(
    tokens: &[FullyQualifiedToken],
    previous_expressions: &Vec<Expression>,
    local_params: &Vec<Param>,
) -> (r: Result<Expression, String>)
    ensures
        (match r {
            Ok(e) => spec_parse_expression(
                tokens.deep_view(),
                previous_expressions.deep_view(),
                local_params.deep_view(),
            ) == Ok::<SpecExpression, Seq<char>>(e@),
            Err(m) => spec_parse_expression(
                tokens.deep_view(),
                previous_expressions.deep_view(),
                local_params.deep_view(),
            ) == Err::<SpecExpression, Seq<char>>(m@),
        }),
    decreases tokens@.len(), 1int,
{
    let ghost dv = tokens.deep_view();
    let ghost pv = previous_expressions.deep_view();
    let ghost mv = local_params.deep_view();
    let n = tokens.len();
    proof {
        assert(dv.len() == n);
    }
    let plus_at = first_index_token(tokens, 0, &Token::Plus);
    let assign_at = first_index_token(tokens, 0, &Token::Assign);
    if plus_at < n && assign_at >= n {
        let left_slice = slice_subrange(tokens, 0, plus_at);
        let right_slice = slice_subrange(tokens, plus_at + 1, n);
        proof {
            assert(left_slice.deep_view() =~= dv.take(plus_at as int));
            assert(right_slice.deep_view() =~= dv.skip(plus_at as int + 1));
        }
        match parse_expression(left_slice, previous_expressions, local_params) {
            Err(e) => Err(e),
            Ok(left) => match parse_expression(right_slice, previous_expressions, local_params) {
                Err(e) => Err(e),
                Ok(right) => Ok(
                    Expression::Addition { left: Box::new(left), right: Box::new(right) },
                ),
            },
        }
    } else {
        let j = skip_right_brackets(tokens);
        if j >= n {
            return Err(String::from_str("Failed parsing expression, ran out of tokens"));
        }
        let fqt = slice_index_get(tokens, j);
        proof {
            assert(dv[j as int] == tokens@[j as int].deep_view());
        }
        match &fqt.token {
            Token::Return => {
                let rest = slice_subrange(tokens, j + 1, n);
                proof {
                    assert(rest.deep_view() =~= dv.skip(j as int + 1));
                }
                match parse_expression(rest, previous_expressions, local_params) {
                    Err(e) => Err(e),
                    Ok(exp) => Ok(Expression::Return { expression: Box::new(exp) }),
                }
            },
            Token::Local => parse_local_stmt(tokens, j, previous_expressions, local_params),
            Token::Global => parse_global_stmt(tokens, j, previous_expressions, local_params),
            Token::Identifier { body } => parse_identifier_stmt(
                tokens,
                j,
                body,
                previous_expressions,
                local_params,
            ),
            Token::Text { body } => Ok(Expression::String { body: body.clone() }),
            Token::Number { body } => Ok(
                Expression::Number { value: body.clone(), ty: String::from_str("f32") },
            ),
            Token::True => Ok(Expression::Boolean { value: true }),
            Token::False => Ok(Expression::Boolean { value: false }),
            Token::If => parse_if_stmt(tokens, j, previous_expressions, local_params),
            Token::For => parse_for_stmt(tokens, j, previous_expressions, local_params),
            _ => {
                let mut msg = String::from_str("Failed parsing expression, got unexpected token ");
                msg.append(fqt.token.text().as_str());
                error_with_info(msg, fqt)
            },
        }
    }
}

} // verus!
verus! {

proof fn lemma_find_type_in_params_first(name: Seq<char>, params: Seq<SpecParam>, i: int)
    requires
        0 <= i < params.len(),
        params[i].name == name,
        forall|j: int| 0 <= j < i ==> (#[trigger] params[j]).name != name,
    ensures
        spec_find_type_in_params(name, params) == Some(params[i].ty),
    decreases params.len(),
{
    if i > 0 {
        lemma_find_type_in_params_first(name, params.drop_first(), i - 1);
        assert(params.drop_first()[i - 1] == params[i]);
        assert(forall|j: int|
            0 <= j < i - 1 ==> (#[trigger] params.drop_first()[j]).name != name) by {
            assert(forall|j: int|
                0 <= j < i - 1 ==> params.drop_first()[j] == params[j + 1]);
        }
    }
}

/// First declaration wins: when a name stands among the parameters, the
/// resolver returns the type of the first parameter bearing it, whatever
/// any prior local declaration of the same name says.
pub proof fn lemma_first_declaration_wins(
    name: Seq<char>,
    priors: Seq<SpecExpression>,
    params: Seq<SpecParam>,
    i: int,
)
    requires
        0 <= i < params.len(),
        params[i].name == name,
        forall|j: int| 0 <= j < i ==> (#[trigger] params[j]).name != name,
    ensures
        spec_find_type(name, priors, params) == Ok::<Seq<char>, Seq<char>>(params[i].ty),
{
    lemma_find_type_in_params_first(name, params, i);
}

} // verus!
