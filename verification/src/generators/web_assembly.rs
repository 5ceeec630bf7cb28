//! The WebAssembly Text Format emitter: turns a parsed program into one
//! WAT module string. Globals are declared first, string constants move
//! into addressed data segments, and `if`/`for` lower into WAT's
//! structured control instructions. `spec_generate` is the mathematical
//! account of the output, bit for bit; `generate` produces exactly it,
//! or reports the one structural gap (a `for` whose initializer is not a
//! local declaration) and exhausted string memory as errors.
use vstd::prelude::*;
use vstd::string::StrSliceExecFns;
use vstd::string::StringExecFns;
use vstd::utf8::encode_utf8;
use crate::blocks::Block;
use crate::blocks::Export;
use crate::blocks::Function;
use crate::blocks::ImportFunction;
use crate::blocks::ImportMemory;
use crate::blocks::Param;
use crate::blocks::SpecBlock;
use crate::blocks::SpecExport;
use crate::blocks::SpecFunction;
use crate::blocks::SpecImportFunction;
use crate::blocks::SpecImportMemory;
use crate::blocks::SpecParam;
use crate::expressions::Expression;
use crate::expressions::SpecExpression;
use crate::expressions::clone_expr;
use crate::expressions::lemma_deep_view_exprs;
use crate::expressions::lemma_view_expr_seq_index;
use crate::expressions::view_expr;
use crate::expressions::view_expr_seq;
use crate::parser::Program;
use crate::parser::SpecProgram;
use crate::text::i64_to_string;
use crate::text::join_strings;
use crate::text::spec_dec_int;
use crate::text::spec_join;
use crate::text::spec_split_char;
use crate::text::split_string_char;
use crate::text::str_eq;

verus! {

/// One indentation pass: every non-empty line, two spaces deeper and
/// newline-terminated; empty lines vanish.
pub open spec fn spec_indent_lines(lines: Seq<Seq<char>>, pad: Seq<char>) -> Seq<char>
    decreases lines.len(),
{
    if lines.len() == 0 {
        Seq::empty()
    } else {
        (if lines.first().len() == 0 {
            Seq::<char>::empty()
        } else {
            pad + lines.first() + "\n"@
        }) + spec_indent_lines(lines.drop_first(), pad)
    }
}

pub open spec fn spec_indent(body: Seq<char>) -> Seq<char> {
    spec_indent_lines(spec_split_char(body, '\n'), "  "@)
}

/// Indents every non-empty line of the text by two spaces, exactly as
/// `spec_indent` says.
#[verifier::loop_isolation(false)]
pub fn indent(body: String) -> (r: String)
    ensures
        r@ == spec_indent(body@),
{
    let lines = split_string_char(body.as_str(), '\n');
    let ghost lv = lines.deep_view();
    let mut out = String::new();
    let mut i: usize = 0;
    proof {
        assert(lv.skip(0) =~= lv);
    }
    while i < lines.len()
        invariant
            i <= lines@.len(),
            out@ + spec_indent_lines(lv.skip(i as int), "  "@) == spec_indent(body@),
        decreases lines@.len() - i,
    {
        proof {
            assert(lv.skip(i as int).first() == lv[i as int]);
            assert(lv.skip(i as int).drop_first() =~= lv.skip(i as int + 1));
            assert(lv[i as int] == lines@[i as int]@);
        }
        let line = &lines[i];
        if !line.as_str().is_empty() {
            out.append("  ");
            out.append(line.as_str());
            out.append("\n");
        }
        i += 1;
    }
    proof {
        assert(lv.skip(lines@.len() as int).len() == 0);
        assert(out@ + Seq::<char>::empty() =~= out@);
    }
    out
}

pub open spec fn msg_for_initializer() -> Seq<char> {
    "For loop initializer must be a local assignment"@
}

pub open spec fn msg_memory_overflow() -> Seq<char> {
    "String constants exceed the addressable memory"@
}

/// The byte length of a text, as `str::len` reports its UTF-8 encoding.
pub open spec fn spec_byte_len(s: Seq<char>) -> int {
    (encode_utf8(s).len() as usize) as int
}

/// The WAT instruction tree of one expression. A `true` emits the zero
/// constant and a `false` the one constant: an inverted encoding that
/// callers depend on, kept deliberately.
pub open spec fn spec_wat_expr(e: SpecExpression) -> Result<Seq<char>, Seq<char>>
    decreases e, 0int,
{
    match e {
        SpecExpression::Addition { left, right } => (match (spec_wat_expr(*left), spec_wat_expr(
            *right,
        )) {
            (Ok(l), Ok(r)) => Ok("(f32.add "@ + l + " "@ + r + ")"@),
            (Err(m), _) => Err(m),
            (_, Err(m)) => Err(m),
        }),
        SpecExpression::GlobalAssign { name, ty, expression } => (match spec_wat_expr(
            *expression,
        ) {
            Ok(inner) => Ok("(global.set $"@ + name + " "@ + inner + ")"@),
            Err(m) => Err(m),
        }),
        SpecExpression::LocalAssign { name, ty, expression } => (match spec_wat_expr(*expression) {
            Ok(inner) => Ok("(local.set $"@ + name + " "@ + inner + ")"@),
            Err(m) => Err(m),
        }),
        SpecExpression::Number { value, ty } => Ok("("@ + ty + ".const "@ + value + ")"@),
        SpecExpression::Return { expression } => spec_wat_expr(*expression),
        SpecExpression::Variable { body, ty } => Ok("(local.get $"@ + body + ")"@),
        SpecExpression::String { body } => Ok("\""@ + body + "\""@),
        SpecExpression::FunctionCall { name, args } => (match spec_wat_list(args) {
            Ok(lines) => Ok(lines + "\n(call $"@ + name + ")"@),
            Err(m) => Err(m),
        }),
        SpecExpression::MemoryReference { offset, length } => Ok(
            "(i32.const "@ + spec_dec_int(offset) + ")\n(i32.const "@ + spec_dec_int(length)
                + ")"@,
        ),
        SpecExpression::IfStatement { predicate, success, fail } => (match (
            spec_wat_expr(*predicate),
            spec_wat_expr(*success),
            spec_wat_expr(*fail),
        ) {
            (Ok(p), Ok(s), Ok(f)) => Ok(
                "(if\n  "@ + p + "\n  (then\n"@ + spec_indent(spec_indent(s)) + "\n  )\n  (else\n"@
                    + spec_indent(spec_indent(f)) + "\n  )\n)"@,
            ),
            (Err(m), _, _) => Err(m),
            (_, Err(m), _) => Err(m),
            (_, _, Err(m)) => Err(m),
        }),
        SpecExpression::Boolean { value } => Ok(
            if value {
                "(i32.const 0)"@
            } else {
                "(i32.const 1)"@
            },
        ),
        SpecExpression::ForStatement { initial_value, incrementor, break_condition, body } => (
        match spec_wat_list(body) {
            Err(m) => Err(m),
            Ok(body_lines) => match *initial_value {
                SpecExpression::LocalAssign { name: var, ty: var_ty, expression } => {
                    match spec_wat_expr(*initial_value) {
                        Err(m) => Err(m),
                        Ok(init) => match spec_wat_expr(*incrementor) {
                            Err(m) => Err(m),
                            Ok(incr) => match spec_wat_expr(*break_condition) {
                                Err(m) => Err(m),
                                Ok(cond) => Ok(
                                    init + "\n(loop $loop\n"@ + spec_indent(body_lines)
                                        + "\n  (local.get $"@ + var + ")\n  "@ + incr + "\n  ("@
                                        + var_ty + ".add)\n  (local.set $"@ + var
                                        + ")\n\n  (local.get $"@ + var + ")\n  "@ + cond + "\n  ("@
                                        + var_ty + ".lt_s)\n  (br_if $loop)\n)"@,
                                ),
                            },
                        },
                    }
                },
                _ => Err(msg_for_initializer()),
            },
        }),
    }
}

/// Expressions rendered and joined with newlines; the first failure
/// wins.
pub open spec fn spec_wat_list(es: Seq<SpecExpression>) -> Result<Seq<char>, Seq<char>>
    decreases es, 1int,
{
    if es.len() == 0 {
        Ok(Seq::empty())
    } else if es.len() == 1 {
        spec_wat_expr(es.first())
    } else {
        match spec_wat_expr(es.first()) {
            Err(m) => Err(m),
            Ok(first) => match spec_wat_list(es.drop_first()) {
                Err(m) => Err(m),
                Ok(rest) => Ok(first + "\n"@ + rest),
            },
        }
    }
}

pub open spec fn spec_wat_param(p: SpecParam) -> Seq<char> {
    "(param $"@ + p.name + " "@ + p.ty + ")"@
}

pub open spec fn spec_wat_params(ps: Seq<SpecParam>) -> Seq<char>
    decreases ps.len(),
{
    if ps.len() == 0 {
        Seq::empty()
    } else if ps.len() == 1 {
        spec_wat_param(ps.first())
    } else {
        spec_wat_param(ps.first()) + " "@ + spec_wat_params(ps.drop_first())
    }
}

pub open spec fn spec_wat_param_tys(ps: Seq<SpecParam>) -> Seq<char>
    decreases ps.len(),
{
    if ps.len() == 0 {
        Seq::empty()
    } else if ps.len() == 1 {
        ps.first().ty
    } else {
        ps.first().ty + " "@ + spec_wat_param_tys(ps.drop_first())
    }
}

/// The local declarations a statement contributes: a non-string local
/// declaration, or the one carried by a `for` loop's initializer.
/// String-typed locals live in linear memory, not in WAT locals.
pub open spec fn spec_wat_local_decls(es: Seq<SpecExpression>) -> Seq<Seq<char>>
    decreases es.len(),
{
    if es.len() == 0 {
        Seq::empty()
    } else {
        (match es.first() {
            SpecExpression::LocalAssign { name, ty, expression } => if ty == "string"@ {
                Seq::<Seq<char>>::empty()
            } else {
                seq!["(local $"@ + name + " "@ + ty + ")"@]
            },
            SpecExpression::ForStatement { initial_value, incrementor, break_condition, body } => (
            match *initial_value {
                SpecExpression::LocalAssign { name, ty, expression } => if ty == "string"@ {
                    Seq::<Seq<char>>::empty()
                } else {
                    seq!["(local $"@ + name + " "@ + ty + ")"@]
                },
                _ => Seq::<Seq<char>>::empty(),
            }),
            _ => Seq::<Seq<char>>::empty(),
        }) + spec_wat_local_decls(es.drop_first())
    }
}

/// The global declarations a function's top-level statements contribute.
pub open spec fn spec_wat_global_decls(es: Seq<SpecExpression>) -> Seq<Seq<char>>
    decreases es.len(),
{
    if es.len() == 0 {
        Seq::empty()
    } else {
        (match es.first() {
            SpecExpression::GlobalAssign { name, ty, expression } => seq![
                "(global $"@ + name + " (mut "@ + ty + "))"@,
            ],
            _ => Seq::<Seq<char>>::empty(),
        }) + spec_wat_global_decls(es.drop_first())
    }
}

/// The string-extraction pass over a function's statements, from a
/// running byte offset: every string-typed local whose value is a text
/// literal becomes a data segment at the running offset and leaves a
/// memory reference in its place; a string-typed local bound to anything
/// else leaves a zero-length reference. The offset only grows, and
/// outgrowing the address space is an error.
pub open spec fn spec_extract(es: Seq<SpecExpression>, offset: int) -> Result<
    (Seq<Seq<char>>, Seq<SpecExpression>),
    Seq<char>,
>
    decreases es.len(),
{
    if es.len() == 0 {
        Ok((Seq::empty(), Seq::empty()))
    } else {
        match es.first() {
            SpecExpression::LocalAssign { name, ty, expression } => {
                if ty == "string"@ {
                    match *expression {
                        SpecExpression::String { body } => {
                            let len = spec_byte_len(body);
                            if offset + len > 0x7fff_ffff {
                                Err(msg_memory_overflow())
                            } else {
                                match spec_extract(es.drop_first(), offset + len) {
                                    Err(m) => Err(m),
                                    Ok((datas, rest)) => Ok(
                                        (
                                            seq![
                                                "(data (i32.const "@ + spec_dec_int(offset) + ") \""@
                                                    + body + "\")"@,
                                            ] + datas,
                                            seq![
                                                SpecExpression::MemoryReference {
                                                    offset: offset,
                                                    length: len,
                                                },
                                            ] + rest,
                                        ),
                                    ),
                                }
                            }
                        },
                        _ => (match spec_extract(es.drop_first(), offset) {
                            Err(m) => Err(m),
                            Ok((datas, rest)) => Ok(
                                (
                                    datas,
                                    seq![
                                        SpecExpression::MemoryReference {
                                            offset: offset,
                                            length: 0,
                                        },
                                    ] + rest,
                                ),
                            ),
                        }),
                    }
                } else {
                    match spec_extract(es.drop_first(), offset) {
                        Err(m) => Err(m),
                        Ok((datas, rest)) => Ok((datas, seq![es.first()] + rest)),
                    }
                }
            },
            _ => (match spec_extract(es.drop_first(), offset) {
                Err(m) => Err(m),
                Ok((datas, rest)) => Ok((datas, seq![es.first()] + rest)),
            }),
        }
    }
}

/// A function body: every statement's instructions, each followed by a
/// newline.
pub open spec fn spec_wat_fn_body(es: Seq<SpecExpression>) -> Result<Seq<char>, Seq<char>>
    decreases es, 1int,
{
    if es.len() == 0 {
        Ok(Seq::empty())
    } else {
        match spec_wat_expr(es.first()) {
            Err(m) => Err(m),
            Ok(first) => match spec_wat_fn_body(es.drop_first()) {
                Err(m) => Err(m),
                Ok(rest) => Ok(first + "\n"@ + rest),
            },
        }
    }
}

/// One function: its data segments first, then the `(func ...)` form
/// with parameters, result type, local declarations and body.
pub open spec fn spec_wat_function(f: SpecFunction) -> Result<Seq<char>, Seq<char>> {
    let params = if f.params.len() == 0 {
        Seq::<char>::empty()
    } else {
        " "@ + spec_wat_params(f.params)
    };
    let ret = if f.return_type == "void"@ {
        Seq::<char>::empty()
    } else {
        " (result "@ + f.return_type + ")"@
    };
    let locals = spec_join(spec_wat_local_decls(f.expressions), "\n"@);
    match spec_extract(f.expressions, 0) {
        Err(m) => Err(m),
        Ok((datas, extracted)) => match spec_wat_fn_body(extracted) {
            Err(m) => Err(m),
            Ok(exprs) => {
                let definitions = if locals.len() == 0 {
                    spec_indent(exprs)
                } else {
                    spec_indent(locals + "\n"@ + exprs)
                };
                let maybe_memory = if datas.len() == 0 {
                    Seq::<char>::empty()
                } else {
                    spec_join(datas, "\n"@) + "\n"@
                };
                Ok(
                    maybe_memory + "(func $"@ + f.name + params + ret + "\n"@ + definitions
                        + ")"@,
                )
            },
        },
    }
}

pub open spec fn spec_wat_export(e: SpecExport) -> Seq<char> {
    "(export \""@ + e.external_name + "\" (func $"@ + e.function_name + "))"@
}

pub open spec fn spec_quoted(names: Seq<Seq<char>>) -> Seq<char>
    decreases names.len(),
{
    if names.len() == 0 {
        Seq::empty()
    } else if names.len() == 1 {
        "\""@ + names.first() + "\""@
    } else {
        "\""@ + names.first() + "\""@ + " "@ + spec_quoted(names.drop_first())
    }
}

pub open spec fn spec_wat_import_function(i: SpecImportFunction) -> Seq<char> {
    "(import "@ + spec_quoted(i.external_name) + " (func $"@ + i.name + " (param "@
        + spec_wat_param_tys(i.params) + ")))"@
}

pub open spec fn spec_wat_import_memory(m: SpecImportMemory) -> Seq<char> {
    "(import "@ + spec_quoted(m.external_name) + " (memory "@ + spec_dec_int(m.size) + "))"@
}

pub open spec fn spec_wat_block(b: SpecBlock) -> Result<Seq<char>, Seq<char>> {
    match b {
        SpecBlock::Function(f) => spec_wat_function(f),
        SpecBlock::Export(e) => Ok(spec_wat_export(e)),
        SpecBlock::ImportFunction(i) => Ok(spec_wat_import_function(i)),
        SpecBlock::ImportMemory(m) => Ok(spec_wat_import_memory(m)),
    }
}

pub open spec fn spec_wat_blocks(bs: Seq<SpecBlock>) -> Result<Seq<Seq<char>>, Seq<char>>
    decreases bs.len(),
{
    if bs.len() == 0 {
        Ok(Seq::empty())
    } else {
        match spec_wat_block(bs.first()) {
            Err(m) => Err(m),
            Ok(first) => match spec_wat_blocks(bs.drop_first()) {
                Err(m) => Err(m),
                Ok(rest) => Ok(seq![first] + rest),
            },
        }
    }
}

/// The global declarations of the whole program: one rendered group per
/// function that declares any, in source order.
pub open spec fn spec_wat_program_globals(bs: Seq<SpecBlock>) -> Seq<Seq<char>>
    decreases bs.len(),
{
    if bs.len() == 0 {
        Seq::empty()
    } else {
        (match bs.first() {
            SpecBlock::Function(f) => {
                let rendered = spec_join(spec_wat_global_decls(f.expressions), "\n"@);
                if rendered.len() == 0 {
                    Seq::<Seq<char>>::empty()
                } else {
                    seq![rendered]
                }
            },
            _ => Seq::<Seq<char>>::empty(),
        }) + spec_wat_program_globals(bs.drop_first())
    }
}

/// The whole module: globals first, then every block's rendering in
/// source order, blank-line separated, indented once and wrapped in
/// `(module ...)`.
pub open spec fn spec_generate(p: SpecProgram) -> Result<Seq<char>, Seq<char>> {
    match spec_wat_blocks(p.blocks) {
        Err(m) => Err(m),
        Ok(bls) => Ok(
            "(module\n"@ + spec_indent(
                spec_join(spec_wat_program_globals(p.blocks) + bls, "\n\n"@),
            ) + ")"@,
        ),
    }
}

fn wat_err(lit: &str) -> (r: String)
    ensures
        r@ == lit@,
{
    String::from_str(lit)
}

/// Emits one expression's instructions, exactly as `spec_wat_expr` says.
#[verifier::loop_isolation(false)]
#[verifier::rlimit(100)]
pub fn generate_expression(expression: &Expression) -> (r: Result<String, String>)
    ensures
        (match r {
            Ok(s) => spec_wat_expr(expression@) == Ok::<Seq<char>, Seq<char>>(s@),
            Err(m) => spec_wat_expr(expression@) == Err::<Seq<char>, Seq<char>>(m@),
        }),
    decreases *expression, 0int,
{
    match expression {
        Expression::Addition { left, right } => {
            let l = match generate_expression(&**left) {
                Err(m) => {
                    return Err(m);
                },
                Ok(v) => v,
            };
            let rr = match generate_expression(&**right) {
                Err(m) => {
                    return Err(m);
                },
                Ok(v) => v,
            };
            let mut out = String::from_str("(f32.add ");
            out.append(l.as_str());
            out.append(" ");
            out.append(rr.as_str());
            out.append(")");
            proof {
                assert(out@ =~= spec_wat_expr(expression@)->Ok_0);
            }
            Ok(out)
        },
        Expression::GlobalAssign { name, ty, expression: inner } => {
            let e = match generate_expression(&**inner) {
                Err(m) => {
                    return Err(m);
                },
                Ok(v) => v,
            };
            let mut out = String::from_str("(global.set $");
            out.append(name.as_str());
            out.append(" ");
            out.append(e.as_str());
            out.append(")");
            proof {
                assert(out@ =~= spec_wat_expr(expression@)->Ok_0);
            }
            Ok(out)
        },
        Expression::LocalAssign { name, ty, expression: inner } => {
            let e = match generate_expression(&**inner) {
                Err(m) => {
                    return Err(m);
                },
                Ok(v) => v,
            };
            let mut out = String::from_str("(local.set $");
            out.append(name.as_str());
            out.append(" ");
            out.append(e.as_str());
            out.append(")");
            proof {
                assert(out@ =~= spec_wat_expr(expression@)->Ok_0);
            }
            Ok(out)
        },
        Expression::Number { value, ty } => {
            let mut out = String::from_str("(");
            out.append(ty.as_str());
            out.append(".const ");
            out.append(value.as_str());
            out.append(")");
            proof {
                assert(out@ =~= spec_wat_expr(expression@)->Ok_0);
            }
            Ok(out)
        },
        Expression::Return { expression: inner } => generate_expression(&**inner),
        Expression::Variable { body, ty } => {
            let mut out = String::from_str("(local.get $");
            out.append(body.as_str());
            out.append(")");
            proof {
                assert(out@ =~= spec_wat_expr(expression@)->Ok_0);
            }
            Ok(out)
        },
        Expression::String { body } => {
            let mut out = String::from_str("\"");
            out.append(body.as_str());
            out.append("\"");
            proof {
                assert(out@ =~= spec_wat_expr(expression@)->Ok_0);
            }
            Ok(out)
        },
        Expression::FunctionCall { name, args } => {
            let lines = match generate_list(args) {
                Err(m) => {
                    return Err(m);
                },
                Ok(v) => v,
            };
            let mut out = lines;
            out.append("\n(call $");
            out.append(name.as_str());
            out.append(")");
            proof {
                assert(out@ =~= spec_wat_expr(expression@)->Ok_0);
            }
            Ok(out)
        },
        Expression::MemoryReference { offset, length } => {
            let mut out = String::from_str("(i32.const ");
            let o = i64_to_string(*offset as i64);
            out.append(o.as_str());
            out.append(")\n(i32.const ");
            let l = i64_to_string(*length as i64);
            out.append(l.as_str());
            out.append(")");
            proof {
                assert(out@ =~= spec_wat_expr(expression@)->Ok_0);
            }
            Ok(out)
        },
        Expression::IfStatement { predicate, success, fail } => {
            let p = match generate_expression(&**predicate) {
                Err(m) => {
                    return Err(m);
                },
                Ok(v) => v,
            };
            let s = match generate_expression(&**success) {
                Err(m) => {
                    return Err(m);
                },
                Ok(v) => v,
            };
            let f = match generate_expression(&**fail) {
                Err(m) => {
                    return Err(m);
                },
                Ok(v) => v,
            };
            let mut out = String::from_str("(if\n  ");
            out.append(p.as_str());
            out.append("\n  (then\n");
            let si = indent(indent(s));
            out.append(si.as_str());
            out.append("\n  )\n  (else\n");
            let fi = indent(indent(f));
            out.append(fi.as_str());
            out.append("\n  )\n)");
            proof {
                assert(out@ =~= spec_wat_expr(expression@)->Ok_0);
            }
            Ok(out)
        },
        Expression::Boolean { value } => {
            if *value {
                Ok(String::from_str("(i32.const 0)"))
            } else {
                Ok(String::from_str("(i32.const 1)"))
            }
        },
        Expression::ForStatement { initial_value, incrementor, break_condition, body } => {
            let body_lines = match generate_list(body) {
                Err(m) => {
                    return Err(m);
                },
                Ok(v) => v,
            };
            let (var, var_ty) = match &**initial_value {
                Expression::LocalAssign { name, ty, expression: inner } => (name, ty),
                _ => {
                    proof {
                        assert(!(view_expr(**initial_value) is LocalAssign));
                        assert(spec_wat_expr(expression@) == Err::<Seq<char>, Seq<char>>(
                            msg_for_initializer(),
                        ));
                    }
                    return Err(wat_err("For loop initializer must be a local assignment"));
                },
            };
            let init = match generate_expression(&**initial_value) {
                Err(m) => {
                    return Err(m);
                },
                Ok(v) => v,
            };
            let incr = match generate_expression(&**incrementor) {
                Err(m) => {
                    return Err(m);
                },
                Ok(v) => v,
            };
            let cond = match generate_expression(&**break_condition) {
                Err(m) => {
                    return Err(m);
                },
                Ok(v) => v,
            };
            let mut out = init;
            out.append("\n(loop $loop\n");
            let bi = indent(body_lines);
            out.append(bi.as_str());
            out.append("\n  (local.get $");
            out.append(var.as_str());
            out.append(")\n  ");
            out.append(incr.as_str());
            out.append("\n  (");
            out.append(var_ty.as_str());
            out.append(".add)\n  (local.set $");
            out.append(var.as_str());
            out.append(")\n\n  (local.get $");
            out.append(var.as_str());
            out.append(")\n  ");
            out.append(cond.as_str());
            out.append("\n  (");
            out.append(var_ty.as_str());
            out.append(".lt_s)\n  (br_if $loop)\n)");
            proof {
                assert(out@ =~= spec_wat_expr(expression@)->Ok_0);
            }
            Ok(out)
        },
    }
}

/// Emits a list of expressions joined with newlines, exactly as
/// `spec_wat_list` says.
#[verifier::loop_isolation(false)]
fn generate_list(es: &Vec<Expression>) -> (r: Result<String, String>)
    ensures
        (match r {
            Ok(s) => spec_wat_list(view_expr_seq(es@)) == Ok::<Seq<char>, Seq<char>>(s@),
            Err(m) => spec_wat_list(view_expr_seq(es@)) == Err::<Seq<char>, Seq<char>>(m@),
        }),
    decreases es@, 1int,
{
    let ghost av = view_expr_seq(es@);
    let mut out = String::new();
    let mut i: usize = 0;
    proof {
        lemma_view_expr_seq_index(es@);
        assert(av.skip(0) =~= av);
    }
    while i < es.len()
        invariant
            i <= es@.len(),
            (match spec_wat_list(av.skip(i as int)) {
                Ok(tail) => spec_wat_list(av) == Ok::<Seq<char>, Seq<char>>(out@ + tail),
                Err(m) => spec_wat_list(av) == Err::<Seq<char>, Seq<char>>(m),
            }),
        decreases es@.len() - i,
    {
        proof {
            assert(av.skip(i as int).first() == av[i as int]);
            assert(av.skip(i as int).drop_first() =~= av.skip(i as int + 1));
            assert(av[i as int] == view_expr(es@[i as int]));
        }
        let ghost pre = out@;
        match generate_expression(&es[i]) {
            Err(m) => {
                proof {
                    assert(spec_wat_list(av.skip(i as int)) == Err::<Seq<char>, Seq<char>>(m@));
                }
                return Err(m);
            },
            Ok(piece) => {
                out.append(piece.as_str());
                if i + 1 < es.len() {
                    out.append("\n");
                    proof {
                        if spec_wat_list(av.skip(i as int + 1)) is Ok {
                            let tail2 = spec_wat_list(av.skip(i as int + 1))->Ok_0;
                            assert(pre + (piece@ + "\n"@ + tail2) =~= out@ + tail2);
                        }
                    }
                } else {
                    proof {
                        assert(av.skip(i as int).len() == 1);
                        assert(pre + piece@ =~= out@);
                        assert(av.skip(i as int + 1).len() == 0);
                        assert(out@ + Seq::<char>::empty() =~= out@);
                    }
                }
            },
        }
        i += 1;
    }
    proof {
        if i == 0 {
            assert(out@ + Seq::<char>::empty() =~= out@);
        }
    }
    Ok(out)
}

} // verus!
verus! {

/// Performs the string-extraction pass, exactly as `spec_extract` from
/// offset zero says: the rendered data segments and the rewritten
/// statement list.
#[verifier::loop_isolation(false)]
#[verifier::rlimit(100)]
pub fn extract_strings(expressions: &Vec<Expression>) -> (r: Result<
    (Vec<String>, Vec<Expression>),
    String,
>)
    ensures
        (match r {
            Ok(p) => spec_extract(view_expr_seq(expressions@), 0) == Ok::<
                (Seq<Seq<char>>, Seq<SpecExpression>),
                Seq<char>,
            >((p.0.deep_view(), view_expr_seq(p.1@))),
            Err(m) => spec_extract(view_expr_seq(expressions@), 0) == Err::<
                (Seq<Seq<char>>, Seq<SpecExpression>),
                Seq<char>,
            >(m@),
        }),
{
    let ghost ev = view_expr_seq(expressions@);
    let mut datas: Vec<String> = Vec::new();
    let mut rewritten: Vec<Expression> = Vec::new();
    let mut offset: i32 = 0;
    let mut i: usize = 0;
    proof {
        lemma_view_expr_seq_index(expressions@);
        assert(ev.skip(0) =~= ev);
        assert(datas.deep_view() =~= Seq::<Seq<char>>::empty());
        assert(view_expr_seq(rewritten@) =~= Seq::<SpecExpression>::empty());
    }
    while i < expressions.len()
        invariant
            i <= expressions@.len(),
            0 <= offset <= 0x7fff_ffff,
            (match spec_extract(ev.skip(i as int), offset as int) {
                Ok(p) => spec_extract(ev, 0) == Ok::<
                    (Seq<Seq<char>>, Seq<SpecExpression>),
                    Seq<char>,
                >((datas.deep_view() + p.0, view_expr_seq(rewritten@) + p.1)),
                Err(m) => spec_extract(ev, 0) == Err::<
                    (Seq<Seq<char>>, Seq<SpecExpression>),
                    Seq<char>,
                >(m),
            }),
        decreases expressions@.len() - i,
    {
        proof {
            assert(ev.skip(i as int).first() == ev[i as int]);
            assert(ev.skip(i as int).drop_first() =~= ev.skip(i as int + 1));
            assert(ev[i as int] == view_expr(expressions@[i as int]));
        }
        let ghost pre_datas = datas.deep_view();
        let ghost pre_rewritten = view_expr_seq(rewritten@);
        let ghost pre_rw_vec = rewritten@;
        let e = &expressions[i];
        let mut take_string = false;
        match e {
            Expression::LocalAssign { name, ty, expression: inner } => {
                if str_eq(ty.as_str(), "string") {
                    take_string = true;
                    match &**inner {
                        Expression::String { body } => {
                            let len = body.as_str().len();
                            if len > (0x7fff_ffff - offset) as usize {
                                proof {
                                    assert(view_expr(expressions@[i as int]) == (
                                    SpecExpression::LocalAssign {
                                        name: name@,
                                        ty: ty@,
                                        expression: Box::new(view_expr(**inner)),
                                    }));
                                    assert(ty@ == "string"@);
                                    assert(view_expr(**inner) == (SpecExpression::String {
                                        body: body@,
                                    }));
                                    assert(len as int == spec_byte_len(body@));
                                    assert(offset as int + spec_byte_len(body@) > 0x7fff_ffff);
                                    assert(spec_extract(ev.skip(i as int), offset as int) == Err::<
                                        (Seq<Seq<char>>, Seq<SpecExpression>),
                                        Seq<char>,
                                    >(msg_memory_overflow()));
                                }
                                return Err(wat_err("String constants exceed the addressable memory"));
                            }
                            let mut data = String::from_str("(data (i32.const ");
                            let o = i64_to_string(offset as i64);
                            data.append(o.as_str());
                            data.append(") \"");
                            data.append(body.as_str());
                            data.append("\")");
                            let ghost dv = data@;
                            datas.push(data);
                            let node = Expression::MemoryReference {
                                offset: offset,
                                length: len as i32,
                            };
                            let ghost nv = node@;
                            rewritten.push(node);
                            proof {
                                assert(datas.deep_view() =~= pre_datas.push(dv));
                                assert(rewritten@ =~= pre_rw_vec.push(
                                    Expression::MemoryReference {
                                        offset: offset,
                                        length: len as i32,
                                    },
                                ));
                                lemma_view_expr_seq_index(rewritten@);
                                lemma_view_expr_seq_index(pre_rw_vec);
                                assert(view_expr_seq(rewritten@) =~= pre_rewritten.push(nv));
                                if spec_extract(ev.skip(i as int + 1), offset + len) is Ok {
                                    let p2 = spec_extract(ev.skip(i as int + 1), offset + len)->Ok_0;
                                    assert(pre_datas + (seq![dv] + p2.0) =~= datas.deep_view()
                                        + p2.0);
                                    assert(pre_rewritten + (seq![nv] + p2.1) =~= view_expr_seq(
                                        rewritten@,
                                    ) + p2.1);
                                }
                            }
                            offset = offset + len as i32;
                        },
                        _ => {
                            let node = Expression::MemoryReference { offset: offset, length: 0 };
                            let ghost nv = node@;
                            rewritten.push(node);
                            proof {
                                assert(rewritten@ =~= pre_rw_vec.push(
                                    Expression::MemoryReference { offset: offset, length: 0 },
                                ));
                                lemma_view_expr_seq_index(rewritten@);
                                lemma_view_expr_seq_index(pre_rw_vec);
                                assert(view_expr_seq(rewritten@) =~= pre_rewritten.push(nv));
                                if spec_extract(ev.skip(i as int + 1), offset as int) is Ok {
                                    let p2 = spec_extract(ev.skip(i as int + 1), offset as int)->Ok_0;
                                    assert(pre_datas + p2.0 =~= datas.deep_view() + p2.0);
                                    assert(pre_rewritten + (seq![nv] + p2.1) =~= view_expr_seq(
                                        rewritten@,
                                    ) + p2.1);
                                }
                            }
                        },
                    }
                }
            },
            _ => {},
        }
        if !take_string {
            let copy = clone_expr(e);
            let ghost cv = copy@;
            rewritten.push(copy);
            proof {
                lemma_view_expr_seq_index(rewritten@);
                lemma_view_expr_seq_index(pre_rw_vec);
                assert(view_expr_seq(rewritten@) =~= pre_rewritten.push(cv));
                assert(cv == ev[i as int]);
                if spec_extract(ev.skip(i as int + 1), offset as int) is Ok {
                    let p2 = spec_extract(ev.skip(i as int + 1), offset as int)->Ok_0;
                    assert(pre_datas + p2.0 =~= datas.deep_view() + p2.0);
                    assert(pre_rewritten + (seq![cv] + p2.1) =~= view_expr_seq(rewritten@) + p2.1);
                }
            }
        }
        i += 1;
    }
    proof {
        assert(ev.skip(expressions@.len() as int).len() == 0);
        assert(datas.deep_view() + Seq::<Seq<char>>::empty() =~= datas.deep_view());
        assert(view_expr_seq(rewritten@) + Seq::<SpecExpression>::empty() =~= view_expr_seq(
            rewritten@,
        ));
    }
    Ok((datas, rewritten))
}

/// The rendered local declarations of a statement list, exactly as
/// `spec_wat_local_decls` says.
#[verifier::loop_isolation(false)]
fn define_locals(expressions: &Vec<Expression>) -> (r: Vec<String>)
    ensures
        r.deep_view() == spec_wat_local_decls(view_expr_seq(expressions@)),
{
    let ghost ev = view_expr_seq(expressions@);
    let mut decls: Vec<String> = Vec::new();
    let mut i: usize = 0;
    proof {
        lemma_view_expr_seq_index(expressions@);
        assert(ev.skip(0) =~= ev);
        assert(decls.deep_view() =~= Seq::<Seq<char>>::empty());
    }
    while i < expressions.len()
        invariant
            i <= expressions@.len(),
            decls.deep_view() + spec_wat_local_decls(ev.skip(i as int)) == spec_wat_local_decls(
                ev,
            ),
        decreases expressions@.len() - i,
    {
        proof {
            assert(ev.skip(i as int).first() == ev[i as int]);
            assert(ev.skip(i as int).drop_first() =~= ev.skip(i as int + 1));
            assert(ev[i as int] == view_expr(expressions@[i as int]));
        }
        let ghost pre = decls.deep_view();
        match &expressions[i] {
            Expression::LocalAssign { name, ty, expression: inner } => {
                if !str_eq(ty.as_str(), "string") {
                    let mut d = String::from_str("(local $");
                    d.append(name.as_str());
                    d.append(" ");
                    d.append(ty.as_str());
                    d.append(")");
                    let ghost dv = d@;
                    decls.push(d);
                    proof {
                        assert(decls.deep_view() =~= pre.push(dv));
                        assert(pre + (seq![dv] + spec_wat_local_decls(ev.skip(i as int + 1)))
                            =~= decls.deep_view() + spec_wat_local_decls(ev.skip(i as int + 1)));
                    }
                }
            },
            Expression::ForStatement { initial_value, incrementor, break_condition, body } => {
                match &**initial_value {
                    Expression::LocalAssign { name, ty, expression: inner } => {
                        if !str_eq(ty.as_str(), "string") {
                            let mut d = String::from_str("(local $");
                            d.append(name.as_str());
                            d.append(" ");
                            d.append(ty.as_str());
                            d.append(")");
                            let ghost dv = d@;
                            decls.push(d);
                            proof {
                                assert(decls.deep_view() =~= pre.push(dv));
                                assert(pre + (seq![dv] + spec_wat_local_decls(
                                    ev.skip(i as int + 1),
                                )) =~= decls.deep_view() + spec_wat_local_decls(
                                    ev.skip(i as int + 1),
                                ));
                            }
                        }
                    },
                    _ => {
                        proof {
                            assert(!(view_expr(**initial_value) is LocalAssign));
                        }
                    },
                }
            },
            _ => {},
        }
        i += 1;
    }
    proof {
        assert(ev.skip(expressions@.len() as int).len() == 0);
        assert(decls.deep_view() + Seq::<Seq<char>>::empty() =~= decls.deep_view());
    }
    decls
}

/// The rendered global declarations of a statement list, exactly as
/// `spec_wat_global_decls` says.
#[verifier::loop_isolation(false)]
fn define_globals(expressions: &Vec<Expression>) -> (r: Vec<String>)
    ensures
        r.deep_view() == spec_wat_global_decls(view_expr_seq(expressions@)),
{
    let ghost ev = view_expr_seq(expressions@);
    let mut decls: Vec<String> = Vec::new();
    let mut i: usize = 0;
    proof {
        lemma_view_expr_seq_index(expressions@);
        assert(ev.skip(0) =~= ev);
        assert(decls.deep_view() =~= Seq::<Seq<char>>::empty());
    }
    while i < expressions.len()
        invariant
            i <= expressions@.len(),
            decls.deep_view() + spec_wat_global_decls(ev.skip(i as int)) == spec_wat_global_decls(
                ev,
            ),
        decreases expressions@.len() - i,
    {
        proof {
            assert(ev.skip(i as int).first() == ev[i as int]);
            assert(ev.skip(i as int).drop_first() =~= ev.skip(i as int + 1));
            assert(ev[i as int] == view_expr(expressions@[i as int]));
        }
        let ghost pre = decls.deep_view();
        match &expressions[i] {
            Expression::GlobalAssign { name, ty, expression: inner } => {
                let mut d = String::from_str("(global $");
                d.append(name.as_str());
                d.append(" (mut ");
                d.append(ty.as_str());
                d.append("))");
                let ghost dv = d@;
                decls.push(d);
                proof {
                    assert(decls.deep_view() =~= pre.push(dv));
                    assert(pre + (seq![dv] + spec_wat_global_decls(ev.skip(i as int + 1)))
                        =~= decls.deep_view() + spec_wat_global_decls(ev.skip(i as int + 1)));
                }
            },
            _ => {},
        }
        i += 1;
    }
    proof {
        assert(ev.skip(expressions@.len() as int).len() == 0);
        assert(decls.deep_view() + Seq::<Seq<char>>::empty() =~= decls.deep_view());
    }
    decls
}

fn generate_param(param: &Param) -> (r: String)
    ensures
        r@ == spec_wat_param(param@),
{
    let mut out = String::from_str("(param $");
    out.append(param.name.as_str());
    out.append(" ");
    out.append(param.ty.as_str());
    out.append(")");
    proof {
        assert(out@ =~= spec_wat_param(param@));
    }
    out
}

#[verifier::loop_isolation(false)]
fn generate_params(params: &Vec<Param>) -> (r: String)
    ensures
        r@ == spec_wat_params(params.deep_view()),
{
    let ghost pv = params.deep_view();
    let mut out = String::new();
    let mut i: usize = 0;
    proof {
        assert(pv.skip(0) =~= pv);
        assert(out@ + spec_wat_params(pv) =~= spec_wat_params(pv));
    }
    while i < params.len()
        invariant
            i <= params@.len(),
            out@ + spec_wat_params(pv.skip(i as int)) == spec_wat_params(pv),
        decreases params@.len() - i,
    {
        proof {
            assert(pv.skip(i as int).first() == pv[i as int]);
            assert(pv.skip(i as int).drop_first() =~= pv.skip(i as int + 1));
            assert(pv[i as int] == params@[i as int]@);
        }
        let piece = generate_param(&params[i]);
        out.append(piece.as_str());
        if i + 1 < params.len() {
            out.append(" ");
        }
        i += 1;
    }
    proof {
        assert(out@ + Seq::<char>::empty() =~= out@);
    }
    out
}

#[verifier::loop_isolation(false)]
fn generate_param_tys(params: &Vec<Param>) -> (r: String)
    ensures
        r@ == spec_wat_param_tys(params.deep_view()),
{
    let ghost pv = params.deep_view();
    let mut out = String::new();
    let mut i: usize = 0;
    proof {
        assert(pv.skip(0) =~= pv);
        assert(out@ + spec_wat_param_tys(pv) =~= spec_wat_param_tys(pv));
    }
    while i < params.len()
        invariant
            i <= params@.len(),
            out@ + spec_wat_param_tys(pv.skip(i as int)) == spec_wat_param_tys(pv),
        decreases params@.len() - i,
    {
        proof {
            assert(pv.skip(i as int).first() == pv[i as int]);
            assert(pv.skip(i as int).drop_first() =~= pv.skip(i as int + 1));
            assert(pv[i as int] == params@[i as int]@);
        }
        out.append(params[i].ty.as_str());
        if i + 1 < params.len() {
            out.append(" ");
        }
        i += 1;
    }
    proof {
        assert(out@ + Seq::<char>::empty() =~= out@);
    }
    out
}

/// Emits one function's data segments and `(func ...)` form, exactly as
/// `spec_wat_function` says.
#[verifier::loop_isolation(false)]
#[verifier::rlimit(100)]
fn generate_function(function: &Function) -> (r: Result<String, String>)
    ensures
        (match r {
            Ok(s) => spec_wat_function(function@) == Ok::<Seq<char>, Seq<char>>(s@),
            Err(m) => spec_wat_function(function@) == Err::<Seq<char>, Seq<char>>(m@),
        }),
{
    let params = if function.params.len() == 0 {
        String::new()
    } else {
        let mut p = String::from_str(" ");
        let inner = generate_params(&function.params);
        p.append(inner.as_str());
        p
    };
    let ret = if str_eq(function.return_type.as_str(), "void") {
        String::new()
    } else {
        let mut v = String::from_str(" (result ");
        v.append(function.return_type.as_str());
        v.append(")");
        v
    };
    let decls = define_locals(&function.expressions);
    let locals = join_strings(&decls, "\n");
    let (datas, extracted) = match extract_strings(&function.expressions) {
        Err(m) => {
            proof {
                lemma_deep_view_exprs(&function.expressions);
            }
            return Err(m);
        },
        Ok(p) => p,
    };
    let ghost xv = view_expr_seq(extracted@);
    let mut exprs = String::new();
    let mut i: usize = 0;
    proof {
        lemma_view_expr_seq_index(extracted@);
        assert(xv.skip(0) =~= xv);
    }
    while i < extracted.len()
        invariant
            i <= extracted@.len(),
            (match spec_wat_fn_body(xv.skip(i as int)) {
                Ok(tail) => spec_wat_fn_body(xv) == Ok::<Seq<char>, Seq<char>>(exprs@ + tail),
                Err(m) => spec_wat_fn_body(xv) == Err::<Seq<char>, Seq<char>>(m),
            }),
        decreases extracted@.len() - i,
    {
        proof {
            assert(xv.skip(i as int).first() == xv[i as int]);
            assert(xv.skip(i as int).drop_first() =~= xv.skip(i as int + 1));
            assert(xv[i as int] == view_expr(extracted@[i as int]));
        }
        let ghost pre = exprs@;
        match generate_expression(&extracted[i]) {
            Err(m) => {
                proof {
                    assert(spec_wat_fn_body(xv.skip(i as int)) == Err::<Seq<char>, Seq<char>>(m@));
                    lemma_deep_view_exprs(&function.expressions);
                }
                return Err(m);
            },
            Ok(piece) => {
                exprs.append(piece.as_str());
                exprs.append("\n");
                proof {
                    if spec_wat_fn_body(xv.skip(i as int + 1)) is Ok {
                        let tail2 = spec_wat_fn_body(xv.skip(i as int + 1))->Ok_0;
                        assert(pre + (piece@ + "\n"@ + tail2) =~= exprs@ + tail2);
                    }
                }
            },
        }
        i += 1;
    }
    proof {
        assert(xv.skip(extracted@.len() as int).len() == 0);
        assert(exprs@ + Seq::<char>::empty() =~= exprs@);
    }
    let definitions = if locals.as_str().is_empty() {
        indent(exprs)
    } else {
        let mut d = locals;
        d.append("\n");
        d.append(exprs.as_str());
        indent(d)
    };
    let mut out = String::new();
    if datas.len() > 0 {
        let joined = join_strings(&datas, "\n");
        out.append(joined.as_str());
        out.append("\n");
    }
    out.append("(func $");
    out.append(function.name.as_str());
    out.append(params.as_str());
    out.append(ret.as_str());
    out.append("\n");
    out.append(definitions.as_str());
    out.append(")");
    proof {
        lemma_deep_view_exprs(&function.expressions);
        assert(out@ =~= spec_wat_function(function@)->Ok_0);
    }
    Ok(out)
}

fn generate_export(export: &Export) -> (r: String)
    ensures
        r@ == spec_wat_export(export@),
{
    let mut out = String::from_str("(export \"");
    out.append(export.external_name.as_str());
    out.append("\" (func $");
    out.append(export.function_name.as_str());
    out.append("))");
    proof {
        assert(out@ =~= spec_wat_export(export@));
    }
    out
}

#[verifier::loop_isolation(false)]
fn generate_quoted(names: &Vec<String>) -> (r: String)
    ensures
        r@ == spec_quoted(names.deep_view()),
{
    let ghost nv = names.deep_view();
    let mut out = String::new();
    let mut i: usize = 0;
    proof {
        assert(nv.skip(0) =~= nv);
        assert(out@ + spec_quoted(nv) =~= spec_quoted(nv));
    }
    while i < names.len()
        invariant
            i <= names@.len(),
            out@ + spec_quoted(nv.skip(i as int)) == spec_quoted(nv),
        decreases names@.len() - i,
    {
        proof {
            assert(nv.skip(i as int).first() == nv[i as int]);
            assert(nv.skip(i as int).drop_first() =~= nv.skip(i as int + 1));
            assert(nv[i as int] == names@[i as int]@);
        }
        out.append("\"");
        out.append(names[i].as_str());
        out.append("\"");
        if i + 1 < names.len() {
            out.append(" ");
        }
        i += 1;
    }
    proof {
        assert(out@ + Seq::<char>::empty() =~= out@);
    }
    out
}

fn generate_import_function(import: &ImportFunction) -> (r: String)
    ensures
        r@ == spec_wat_import_function(import@),
{
    let mut out = String::from_str("(import ");
    let ext = generate_quoted(&import.external_name);
    out.append(ext.as_str());
    out.append(" (func $");
    out.append(import.name.as_str());
    out.append(" (param ");
    let tys = generate_param_tys(&import.params);
    out.append(tys.as_str());
    out.append(")))");
    proof {
        assert(out@ =~= spec_wat_import_function(import@));
    }
    out
}

fn generate_import_memory(import: &ImportMemory) -> (r: String)
    ensures
        r@ == spec_wat_import_memory(import@),
{
    let mut out = String::from_str("(import ");
    let ext = generate_quoted(&import.external_name);
    out.append(ext.as_str());
    out.append(" (memory ");
    let size = i64_to_string(import.size as i64);
    out.append(size.as_str());
    out.append("))");
    proof {
        assert(out@ =~= spec_wat_import_memory(import@));
    }
    out
}

fn generate_block(block: &Block) -> (r: Result<String, String>)
    ensures
        (match r {
            Ok(s) => spec_wat_block(block@) == Ok::<Seq<char>, Seq<char>>(s@),
            Err(m) => spec_wat_block(block@) == Err::<Seq<char>, Seq<char>>(m@),
        }),
{
    match block {
        Block::Function(function) => generate_function(function),
        Block::Export(export) => Ok(generate_export(export)),
        Block::ImportFunction(import) => Ok(generate_import_function(import)),
        Block::ImportMemory(import) => Ok(generate_import_memory(import)),
    }
}

/// Emits the whole module, exactly as `spec_generate` says: the program
/// as one WAT text, or the first structural failure.
#[verifier::loop_isolation(false)]
#[verifier::rlimit(100)]
pub fn generate(program: Program) -> (r: Result<String, String>)
    ensures
        (match r {
            Ok(s) => spec_generate(program@) == Ok::<Seq<char>, Seq<char>>(s@),
            Err(m) => spec_generate(program@) == Err::<Seq<char>, Seq<char>>(m@),
        }),
{
    let ghost bv = program.blocks.deep_view();
    let mut pieces: Vec<String> = Vec::new();
    let mut i: usize = 0;
    proof {
        assert(bv.skip(0) =~= bv);
        assert(pieces.deep_view() =~= Seq::<Seq<char>>::empty());
    }
    while i < program.blocks.len()
        invariant
            i <= program.blocks@.len(),
            pieces.deep_view() + spec_wat_program_globals(bv.skip(i as int))
                == spec_wat_program_globals(bv),
        decreases program.blocks@.len() - i,
    {
        proof {
            assert(bv.skip(i as int).first() == bv[i as int]);
            assert(bv.skip(i as int).drop_first() =~= bv.skip(i as int + 1));
            assert(bv[i as int] == program.blocks@[i as int]@);
        }
        let ghost pre = pieces.deep_view();
        match &program.blocks[i] {
            Block::Function(function) => {
                let decls = define_globals(&function.expressions);
                let rendered = join_strings(&decls, "\n");
                proof {
                    lemma_deep_view_exprs(&function.expressions);
                }
                if !rendered.as_str().is_empty() {
                    let ghost rv = rendered@;
                    pieces.push(rendered);
                    proof {
                        assert(pieces.deep_view() =~= pre.push(rv));
                        assert(pre + (seq![rv] + spec_wat_program_globals(bv.skip(i as int + 1)))
                            =~= pieces.deep_view() + spec_wat_program_globals(
                            bv.skip(i as int + 1),
                        ));
                    }
                }
            },
            _ => {},
        }
        i += 1;
    }
    proof {
        assert(bv.skip(program.blocks@.len() as int).len() == 0);
        assert(pieces.deep_view() + Seq::<Seq<char>>::empty() =~= pieces.deep_view());
    }
    let ghost globals_dv = pieces.deep_view();
    let mut rendered: Vec<String> = Vec::new();
    let mut k: usize = 0;
    proof {
        assert(bv.skip(0) =~= bv);
        assert(rendered.deep_view() =~= Seq::<Seq<char>>::empty());
        if spec_wat_blocks(bv) is Ok {
            assert(Seq::<Seq<char>>::empty() + spec_wat_blocks(bv)->Ok_0 =~= spec_wat_blocks(
                bv,
            )->Ok_0);
        }
    }
    while k < program.blocks.len()
        invariant
            k <= program.blocks@.len(),
            (match spec_wat_blocks(bv.skip(k as int)) {
                Ok(tail) => spec_wat_blocks(bv) == Ok::<Seq<Seq<char>>, Seq<char>>(
                    rendered.deep_view() + tail,
                ),
                Err(m) => spec_wat_blocks(bv) == Err::<Seq<Seq<char>>, Seq<char>>(m),
            }),
        decreases program.blocks@.len() - k,
    {
        proof {
            assert(bv.skip(k as int).first() == bv[k as int]);
            assert(bv.skip(k as int).drop_first() =~= bv.skip(k as int + 1));
            assert(bv[k as int] == program.blocks@[k as int]@);
        }
        let ghost pre = rendered.deep_view();
        match generate_block(&program.blocks[k]) {
            Err(m) => {
                proof {
                    assert(spec_wat_blocks(bv.skip(k as int)) == Err::<Seq<Seq<char>>, Seq<char>>(
                        m@,
                    ));
                }
                return Err(m);
            },
            Ok(piece) => {
                let ghost pv2 = piece@;
                rendered.push(piece);
                proof {
                    assert(rendered.deep_view() =~= pre.push(pv2));
                    if spec_wat_blocks(bv.skip(k as int + 1)) is Ok {
                        let tail2 = spec_wat_blocks(bv.skip(k as int + 1))->Ok_0;
                        assert(pre + (seq![pv2] + tail2) =~= rendered.deep_view() + tail2);
                    }
                }
            },
        }
        k += 1;
    }
    proof {
        assert(bv.skip(program.blocks@.len() as int).len() == 0);
        assert(rendered.deep_view() + Seq::<Seq<char>>::empty() =~= rendered.deep_view());
    }
    let mut combined = pieces;
    let mut j: usize = 0;
    proof {
        assert(combined.deep_view() + rendered.deep_view().take(0) =~= combined.deep_view());
        assert(combined.deep_view() =~= globals_dv + rendered.deep_view().take(0));
    }
    while j < rendered.len()
        invariant
            j <= rendered@.len(),
            combined.deep_view() == globals_dv + rendered.deep_view().take(j as int),
        decreases rendered@.len() - j,
    {
        let ghost pre = combined.deep_view();
        combined.push(rendered[j].clone());
        proof {
            assert(rendered.deep_view()[j as int] == rendered@[j as int]@);
            assert(combined.deep_view() =~= pre.push(rendered.deep_view()[j as int]));
            assert(rendered.deep_view().take(j as int).push(rendered.deep_view()[j as int])
                =~= rendered.deep_view().take(j as int + 1));
            assert(pre.push(rendered.deep_view()[j as int]) =~= globals_dv
                + rendered.deep_view().take(j as int + 1));
        }
        j += 1;
    }
    proof {
        assert(rendered.deep_view().take(rendered@.len() as int) =~= rendered.deep_view());
        assert(combined.deep_view() =~= globals_dv + rendered.deep_view());
    }
    let joined = join_strings(&combined, "\n\n");
    let mut out = String::from_str("(module\n");
    let ji = indent(joined);
    out.append(ji.as_str());
    out.append(")");
    proof {
        assert(out@ =~= spec_generate(program@)->Ok_0);
    }
    Ok(out)
}

} // verus!
