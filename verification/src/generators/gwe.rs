//! The pretty-printer: renders a parsed program back into the source
//! language's own syntax. `spec_generate` is the mathematical account of
//! the rendering; `generate` produces exactly that text.
use vstd::prelude::*;
use vstd::string::StrSliceExecFns;
use vstd::string::StringExecFns;
use crate::blocks::Block;
use crate::blocks::Export;
use crate::blocks::Function;
use crate::blocks::ImportFunction;
use crate::blocks::ImportMemory;
use crate::blocks::Param;
use crate::blocks::SpecBlock;
use crate::blocks::SpecExport;
use crate::blocks::SpecFunction;
use crate::blocks::SpecImportFunction;
use crate::blocks::SpecImportMemory;
use crate::blocks::SpecParam;
use crate::expressions::Expression;
use crate::expressions::SpecExpression;
use crate::expressions::lemma_deep_view_exprs;
use crate::expressions::lemma_view_expr_seq_index;
use crate::expressions::view_expr;
use crate::expressions::view_expr_seq;
use crate::parser::Program;
use crate::parser::SpecProgram;
use crate::text::i64_to_string;
use crate::text::spec_dec_int;
use crate::text::spec_join;
use crate::text::spec_split_char;
use crate::text::split_string_char;

verus! {

/// One indentation pass: every non-empty line, four spaces deeper and
/// newline-terminated; empty lines vanish.
pub open spec fn spec_indent_lines(lines: Seq<Seq<char>>, pad: Seq<char>) -> Seq<char>
    decreases lines.len(),
{
    if lines.len() == 0 {
        Seq::empty()
    } else {
        (if lines.first().len() == 0 {
            Seq::<char>::empty()
        } else {
            pad + lines.first() + "\n"@
        }) + spec_indent_lines(lines.drop_first(), pad)
    }
}

pub open spec fn spec_indent(body: Seq<char>) -> Seq<char> {
    spec_indent_lines(spec_split_char(body, '\n'), "    "@)
}

/// Indents every non-empty line of the text by four spaces, exactly as
/// `spec_indent` says.
#[verifier::loop_isolation(false)]
pub fn indent(body: String) -> (r: String)
    ensures
        r@ == spec_indent(body@),
{
    let lines = split_string_char(body.as_str(), '\n');
    let ghost lv = lines.deep_view();
    let mut out = String::new();
    let mut i: usize = 0;
    proof {
        assert(lv.skip(0) =~= lv);
    }
    while i < lines.len()
        invariant
            i <= lines@.len(),
            out@ + spec_indent_lines(lv.skip(i as int), "    "@) == spec_indent(body@),
        decreases lines@.len() - i,
    {
        proof {
            assert(lv.skip(i as int).first() == lv[i as int]);
            assert(lv.skip(i as int).drop_first() =~= lv.skip(i as int + 1));
            assert(lv[i as int] == lines@[i as int]@);
        }
        let line = &lines[i];
        if !line.as_str().is_empty() {
            out.append("    ");
            out.append(line.as_str());
            out.append("\n");
        }
        i += 1;
    }
    proof {
        assert(lv.skip(lines@.len() as int).len() == 0);
        assert(out@ + Seq::<char>::empty() =~= out@);
    }
    out
}

/// The source rendering of one expression.
pub open spec fn spec_gwe_expr(e: SpecExpression) -> Seq<char>
    decreases e, 0int,
{
    match e {
        SpecExpression::Addition { left, right } => spec_gwe_expr(*left) + " + "@ + spec_gwe_expr(
            *right,
        ),
        SpecExpression::GlobalAssign { name, ty, expression } => "global "@ + name + ": "@ + ty
            + " = "@ + spec_gwe_expr(*expression),
        SpecExpression::LocalAssign { name, ty, expression } => "local "@ + name + ": "@ + ty
            + " = "@ + spec_gwe_expr(*expression),
        SpecExpression::Number { value, ty } => value,
        SpecExpression::Return { expression } => "return "@ + spec_gwe_expr(*expression),
        SpecExpression::Variable { body, ty } => body,
        SpecExpression::String { body } => "\""@ + body + "\""@,
        SpecExpression::FunctionCall { name, args } => name + "("@ + spec_gwe_args(args) + ")"@,
        SpecExpression::MemoryReference { offset, length } => Seq::empty(),
        SpecExpression::IfStatement { predicate, success, fail } => "if ("@ + spec_gwe_expr(
            *predicate,
        ) + ") {\n"@ + spec_indent(spec_gwe_expr(*success) + ";"@) + "} else {\n"@ + spec_indent(
            spec_gwe_expr(*fail) + ";"@,
        ) + "}"@,
        SpecExpression::Boolean { value } => if value {
            "true"@
        } else {
            "false"@
        },
        SpecExpression::ForStatement { initial_value, incrementor, break_condition, body } => "for ("@
            + spec_gwe_expr(*initial_value) + ", "@ + spec_gwe_expr(*break_condition) + ", "@
            + spec_gwe_expr(*incrementor) + ") {\n"@ + spec_indent(spec_gwe_stmt_lines(body))
            + "}"@,
    }
}

/// Call arguments, rendered and joined with commas.
pub open spec fn spec_gwe_args(args: Seq<SpecExpression>) -> Seq<char>
    decreases args, 1int,
{
    if args.len() == 0 {
        Seq::empty()
    } else if args.len() == 1 {
        spec_gwe_expr(args.first())
    } else {
        spec_gwe_expr(args.first()) + ", "@ + spec_gwe_args(args.drop_first())
    }
}

/// Statements, each with its semicolon, joined with newlines.
pub open spec fn spec_gwe_stmt_lines(es: Seq<SpecExpression>) -> Seq<char>
    decreases es, 1int,
{
    if es.len() == 0 {
        Seq::empty()
    } else if es.len() == 1 {
        spec_gwe_expr(es.first()) + ";"@
    } else {
        spec_gwe_expr(es.first()) + ";"@ + "\n"@ + spec_gwe_stmt_lines(es.drop_first())
    }
}

pub open spec fn spec_gwe_param(p: SpecParam) -> Seq<char> {
    p.name + ": "@ + p.ty
}

pub open spec fn spec_gwe_params(ps: Seq<SpecParam>) -> Seq<char>
    decreases ps.len(),
{
    if ps.len() == 0 {
        Seq::empty()
    } else if ps.len() == 1 {
        spec_gwe_param(ps.first())
    } else {
        spec_gwe_param(ps.first()) + ", "@ + spec_gwe_params(ps.drop_first())
    }
}

/// A function body: each statement rendered, a semicolon and newline
/// after it.
pub open spec fn spec_gwe_body(es: Seq<SpecExpression>) -> Seq<char>
    decreases es, 1int,
{
    if es.len() == 0 {
        Seq::empty()
    } else {
        spec_gwe_expr(es.first()) + ";\n"@ + spec_gwe_body(es.drop_first())
    }
}

pub open spec fn spec_gwe_function(f: SpecFunction) -> Seq<char> {
    if f.expressions.len() == 0 {
        "fn "@ + f.name + "("@ + spec_gwe_params(f.params) + "): "@ + f.return_type + " {\n}"@
    } else {
        "fn "@ + f.name + "("@ + spec_gwe_params(f.params) + "): "@ + f.return_type + " {\n"@
            + spec_indent(spec_gwe_body(f.expressions)) + "}"@
    }
}

pub open spec fn spec_gwe_export(e: SpecExport) -> Seq<char> {
    "export "@ + e.external_name + " "@ + e.function_name
}

pub open spec fn spec_gwe_import_function(i: SpecImportFunction) -> Seq<char> {
    "import fn "@ + i.name + "("@ + spec_gwe_params(i.params) + ") "@ + spec_join(
        i.external_name,
        "."@,
    )
}

pub open spec fn spec_gwe_import_memory(m: SpecImportMemory) -> Seq<char> {
    "import memory "@ + spec_dec_int(m.size) + " "@ + spec_join(m.external_name, "."@)
}

pub open spec fn spec_gwe_block(b: SpecBlock) -> Seq<char> {
    match b {
        SpecBlock::Function(f) => spec_gwe_function(f),
        SpecBlock::Export(e) => spec_gwe_export(e),
        SpecBlock::ImportFunction(i) => spec_gwe_import_function(i),
        SpecBlock::ImportMemory(m) => spec_gwe_import_memory(m),
    }
}

pub open spec fn spec_gwe_blocks(bs: Seq<SpecBlock>) -> Seq<Seq<char>>
    decreases bs.len(),
{
    if bs.len() == 0 {
        Seq::empty()
    } else {
        seq![spec_gwe_block(bs.first())] + spec_gwe_blocks(bs.drop_first())
    }
}

/// The whole program in source syntax: every block rendered, blocks
/// separated by blank lines.
pub open spec fn spec_generate(p: SpecProgram) -> Seq<char> {
    spec_join(spec_gwe_blocks(p.blocks), "\n\n"@)
}

fn generate_param(param: &Param) -> (r: String)
    ensures
        r@ == spec_gwe_param(param@),
{
    let mut out = param.name.clone();
    out.append(": ");
    out.append(param.ty.as_str());
    proof {
        assert(out@ =~= spec_gwe_param(param@));
    }
    out
}

fn generate_params(params: &Vec<Param>) -> (r: String)
    ensures
        r@ == spec_gwe_params(params.deep_view()),
{
    let ghost pv = params.deep_view();
    let mut out = String::new();
    let mut i: usize = 0;
    proof {
        assert(pv.skip(0) =~= pv);
        assert(out@ + spec_gwe_params(pv) =~= spec_gwe_params(pv));
    }
    while i < params.len()
        invariant
            i <= params@.len(),
            pv == params.deep_view(),
            pv.len() == params@.len(),
            out@ + spec_gwe_params(pv.skip(i as int)) == spec_gwe_params(pv),
        decreases params@.len() - i,
    {
        proof {
            assert(pv.skip(i as int).first() == pv[i as int]);
            assert(pv.skip(i as int).drop_first() =~= pv.skip(i as int + 1));
            assert(pv[i as int] == params@[i as int]@);
        }
        let piece = generate_param(&params[i]);
        out.append(piece.as_str());
        if i + 1 < params.len() {
            out.append(", ");
        }
        i += 1;
    }
    proof {
        assert(out@ + Seq::<char>::empty() =~= out@);
    }
    out
}

/// Renders one expression in source syntax, exactly as `spec_gwe_expr`
/// says.
#[verifier::loop_isolation(false)]
#[verifier::rlimit(100)]
fn generate_expression(expression: &Expression) -> (r: String)
    ensures
        r@ == spec_gwe_expr(expression@),
    decreases *expression, 0int,
{
    match expression {
        Expression::Addition { left, right } => {
            let mut out = generate_expression(&**left);
            out.append(" + ");
            let rhs = generate_expression(&**right);
            out.append(rhs.as_str());
            proof {
                assert(out@ =~= spec_gwe_expr(expression@));
            }
            out
        },
        Expression::GlobalAssign { name, ty, expression: inner } => {
            let mut out = String::from_str("global ");
            out.append(name.as_str());
            out.append(": ");
            out.append(ty.as_str());
            out.append(" = ");
            let e = generate_expression(&**inner);
            out.append(e.as_str());
            proof {
                assert(out@ =~= spec_gwe_expr(expression@));
            }
            out
        },
        Expression::LocalAssign { name, ty, expression: inner } => {
            let mut out = String::from_str("local ");
            out.append(name.as_str());
            out.append(": ");
            out.append(ty.as_str());
            out.append(" = ");
            let e = generate_expression(&**inner);
            out.append(e.as_str());
            proof {
                assert(out@ =~= spec_gwe_expr(expression@));
            }
            out
        },
        Expression::Number { value, ty } => value.clone(),
        Expression::Return { expression: inner } => {
            let mut out = String::from_str("return ");
            let e = generate_expression(&**inner);
            out.append(e.as_str());
            proof {
                assert(out@ =~= spec_gwe_expr(expression@));
            }
            out
        },
        Expression::Variable { body, ty } => body.clone(),
        Expression::String { body } => {
            let mut out = String::from_str("\"");
            out.append(body.as_str());
            out.append("\"");
            proof {
                assert(out@ =~= spec_gwe_expr(expression@));
            }
            out
        },
        Expression::FunctionCall { name, args } => {
            let ghost av = view_expr_seq(args@);
            let mut rendered = name.clone();
            rendered.append("(");
            let mut i: usize = 0;
            proof {
                lemma_view_expr_seq_index(args@);
                assert(av.skip(0) =~= av);
                assert(rendered@ + spec_gwe_args(av) =~= name@ + "("@ + spec_gwe_args(av));
            }
            while i < args.len()
                invariant
                    i <= args@.len(),
                    av == view_expr_seq(args@),
                    av.len() == args@.len(),
                    rendered@ + spec_gwe_args(av.skip(i as int)) == name@ + "("@ + spec_gwe_args(
                        av,
                    ),
                decreases args@.len() - i,
            {
                proof {
                    assert(av.skip(i as int).first() == av[i as int]);
                    assert(av.skip(i as int).drop_first() =~= av.skip(i as int + 1));
                    assert(av[i as int] == view_expr(args@[i as int]));
                }
                let piece = generate_expression(&args[i]);
                rendered.append(piece.as_str());
                if i + 1 < args.len() {
                    rendered.append(", ");
                }
                i += 1;
            }
            rendered.append(")");
            proof {
                assert(rendered@ =~= spec_gwe_expr(expression@));
            }
            rendered
        },
        Expression::MemoryReference { offset, length } => String::new(),
        Expression::IfStatement { predicate, success, fail } => {
            let mut out = String::from_str("if (");
            let p = generate_expression(&**predicate);
            out.append(p.as_str());
            out.append(") {\n");
            let mut s = generate_expression(&**success);
            s.append(";");
            let si = indent(s);
            out.append(si.as_str());
            out.append("} else {\n");
            let mut f = generate_expression(&**fail);
            f.append(";");
            let fi = indent(f);
            out.append(fi.as_str());
            out.append("}");
            proof {
                assert(out@ =~= spec_gwe_expr(expression@));
            }
            out
        },
        Expression::Boolean { value } => {
            if *value {
                String::from_str("true")
            } else {
                String::from_str("false")
            }
        },
        Expression::ForStatement { initial_value, incrementor, break_condition, body } => {
            let ghost bv = view_expr_seq(body@);
            let mut out = String::from_str("for (");
            let init = generate_expression(&**initial_value);
            out.append(init.as_str());
            out.append(", ");
            let cond = generate_expression(&**break_condition);
            out.append(cond.as_str());
            out.append(", ");
            let incr = generate_expression(&**incrementor);
            out.append(incr.as_str());
            out.append(") {\n");
            let mut lines = String::new();
            let mut i: usize = 0;
            proof {
                lemma_view_expr_seq_index(body@);
                assert(bv.skip(0) =~= bv);
                assert(lines@ + spec_gwe_stmt_lines(bv) =~= spec_gwe_stmt_lines(bv));
            }
            while i < body.len()
                invariant
                    i <= body@.len(),
                    bv == view_expr_seq(body@),
                    bv.len() == body@.len(),
                    lines@ + spec_gwe_stmt_lines(bv.skip(i as int)) == spec_gwe_stmt_lines(bv),
                decreases body@.len() - i,
            {
                proof {
                    assert(bv.skip(i as int).first() == bv[i as int]);
                    assert(bv.skip(i as int).drop_first() =~= bv.skip(i as int + 1));
                    assert(bv[i as int] == view_expr(body@[i as int]));
                }
                let piece = generate_expression(&body[i]);
                lines.append(piece.as_str());
                lines.append(";");
                if i + 1 < body.len() {
                    lines.append("\n");
                }
                i += 1;
            }
            proof {
                assert(lines@ + Seq::<char>::empty() =~= lines@);
            }
            let li = indent(lines);
            out.append(li.as_str());
            out.append("}");
            proof {
                assert(out@ =~= spec_gwe_expr(expression@));
            }
            out
        },
    }
}

#[verifier::loop_isolation(false)]
fn generate_function(function: &Function) -> (r: String)
    ensures
        r@ == spec_gwe_function(function@),
{
    let params = generate_params(&function.params);
    let mut out = String::from_str("fn ");
    out.append(function.name.as_str());
    out.append("(");
    out.append(params.as_str());
    out.append("): ");
    out.append(function.return_type.as_str());
    if function.expressions.len() == 0 {
        out.append(" {\n}");
        proof {
            lemma_deep_view_exprs(&function.expressions);
            assert(out@ =~= spec_gwe_function(function@));
        }
        return out;
    }
    out.append(" {\n");
    let ghost ev = view_expr_seq(function.expressions@);
    let mut body = String::new();
    let mut i: usize = 0;
    proof {
        lemma_view_expr_seq_index(function.expressions@);
        assert(ev.skip(0) =~= ev);
        assert(body@ + spec_gwe_body(ev) =~= spec_gwe_body(ev));
    }
    while i < function.expressions.len()
        invariant
            i <= function.expressions@.len(),
            ev == view_expr_seq(function.expressions@),
            ev.len() == function.expressions@.len(),
            body@ + spec_gwe_body(ev.skip(i as int)) == spec_gwe_body(ev),
        decreases function.expressions@.len() - i,
    {
        proof {
            assert(ev.skip(i as int).first() == ev[i as int]);
            assert(ev.skip(i as int).drop_first() =~= ev.skip(i as int + 1));
            assert(ev[i as int] == view_expr(function.expressions@[i as int]));
        }
        let piece = generate_expression(&function.expressions[i]);
        body.append(piece.as_str());
        body.append(";\n");
        i += 1;
    }
    proof {
        assert(body@ + Seq::<char>::empty() =~= body@);
    }
    let bi = indent(body);
    out.append(bi.as_str());
    out.append("}");
    proof {
        lemma_deep_view_exprs(&function.expressions);
        assert(out@ =~= spec_gwe_function(function@));
    }
    out
}

fn generate_export(export: &Export) -> (r: String)
    ensures
        r@ == spec_gwe_export(export@),
{
    let mut out = String::from_str("export ");
    out.append(export.external_name.as_str());
    out.append(" ");
    out.append(export.function_name.as_str());
    proof {
        assert(out@ =~= spec_gwe_export(export@));
    }
    out
}

#[verifier::loop_isolation(false)]
fn generate_dotted(names: &Vec<String>) -> (r: String)
    ensures
        r@ == spec_join(names.deep_view(), "."@),
{
    let ghost nv = names.deep_view();
    let mut out = String::new();
    let mut i: usize = 0;
    proof {
        assert(nv.skip(0) =~= nv);
        assert(out@ + spec_join(nv, "."@) =~= spec_join(nv, "."@));
    }
    while i < names.len()
        invariant
            i <= names@.len(),
            nv == names.deep_view(),
            nv.len() == names@.len(),
            out@ + spec_join(nv.skip(i as int), "."@) == spec_join(nv, "."@),
        decreases names@.len() - i,
    {
        proof {
            assert(nv.skip(i as int).first() == nv[i as int]);
            assert(nv.skip(i as int).drop_first() =~= nv.skip(i as int + 1));
            assert(nv[i as int] == names@[i as int]@);
        }
        out.append(names[i].as_str());
        if i + 1 < names.len() {
            out.append(".");
        }
        i += 1;
    }
    proof {
        assert(out@ + Seq::<char>::empty() =~= out@);
    }
    out
}

fn generate_import_function(import: &ImportFunction) -> (r: String)
    ensures
        r@ == spec_gwe_import_function(import@),
{
    let mut out = String::from_str("import fn ");
    out.append(import.name.as_str());
    out.append("(");
    let params = generate_params(&import.params);
    out.append(params.as_str());
    out.append(") ");
    let ext = generate_dotted(&import.external_name);
    out.append(ext.as_str());
    proof {
        assert(out@ =~= spec_gwe_import_function(import@));
    }
    out
}

fn generate_import_memory(import: &ImportMemory) -> (r: String)
    ensures
        r@ == spec_gwe_import_memory(import@),
{
    let mut out = String::from_str("import memory ");
    let size = i64_to_string(import.size as i64);
    out.append(size.as_str());
    out.append(" ");
    let ext = generate_dotted(&import.external_name);
    out.append(ext.as_str());
    proof {
        assert(out@ =~= spec_gwe_import_memory(import@));
    }
    out
}

fn generate_block(block: &Block) -> (r: String)
    ensures
        r@ == spec_gwe_block(block@),
{
    match block {
        Block::Function(function) => generate_function(function),
        Block::Export(export) => generate_export(export),
        Block::ImportFunction(import) => generate_import_function(import),
        Block::ImportMemory(import) => generate_import_memory(import),
    }
}

/// Renders a whole program in source syntax, exactly as `spec_generate`
/// says.
#[verifier::loop_isolation(false)]
pub fn generate(program: Program) -> (r: String)
    ensures
        r@ == spec_generate(program@),
{
    let ghost bv = program.blocks.deep_view();
    let mut out = String::new();
    let mut i: usize = 0;
    proof {
        assert(bv.skip(0) =~= bv);
        assert(out@ + spec_join(spec_gwe_blocks(bv), "\n\n"@) =~= spec_join(
            spec_gwe_blocks(bv),
            "\n\n"@,
        ));
    }
    while i < program.blocks.len()
        invariant
            i <= program.blocks@.len(),
            bv == program.blocks.deep_view(),
            bv.len() == program.blocks@.len(),
            out@ + spec_join(spec_gwe_blocks(bv.skip(i as int)), "\n\n"@) == spec_join(
                spec_gwe_blocks(bv),
                "\n\n"@,
            ),
        decreases program.blocks@.len() - i,
    {
        proof {
            assert(bv.skip(i as int).first() == bv[i as int]);
            assert(bv.skip(i as int).drop_first() =~= bv.skip(i as int + 1));
            assert(bv[i as int] == program.blocks@[i as int]@);
            let sb = spec_gwe_blocks(bv.skip(i as int));
            assert(sb.first() == spec_gwe_block(bv[i as int]));
            assert(sb.drop_first() =~= spec_gwe_blocks(bv.skip(i as int + 1)));
            assert(seq![sb.first()] + sb.drop_first() =~= sb);
        }
        let piece = generate_block(&program.blocks[i]);
        out.append(piece.as_str());
        if i + 1 < program.blocks.len() {
            out.append("\n\n");
        }
        i += 1;
    }
    proof {
        assert(out@ + Seq::<char>::empty() =~= out@);
    }
    out
}

} // verus!
