//! Top-level units of a source file: function definitions, exports and
//! imports, and the parsers that build them from token streams.
use vstd::prelude::*;
use vstd::slice::slice_index_get;
use vstd::slice::slice_subrange;
use vstd::string::StrSliceExecFns;
use vstd::string::StringExecFns;
use crate::expressions::Expression;
use crate::expressions::SpecExpression;
use crate::expressions::parse_expression;
use crate::expressions::spec_parse_expression;
use crate::expressions::view_expr_seq;
use crate::expressions::lemma_view_expr_seq_index;
use crate::expressions::lemma_deep_view_exprs;
use crate::expressions::slice_to_vec_fqt;
use crate::expressions::view_expr;
use crate::text::parse_i32;
use crate::text::spec_blank;
use crate::text::spec_join;
use crate::text::spec_parse_i32;
use crate::text::spec_split_char;
use crate::text::split_string_char;
use crate::text::str_eq;
use crate::text::str_is_blank;
use crate::text::str_starts_with;
use crate::text::join_strings;
use crate::tokenizer::FullyQualifiedToken;
use crate::tokenizer::SpecFqt;
use crate::tokenizer::SpecToken;
use crate::tokenizer::Token;
use crate::tokenizer::error_with_info;
use crate::tokenizer::spec_error_with_info;
use crate::tokenizer::spec_split_statements;
use crate::tokenizer::spec_token_text;
use crate::tokenizer::spec_tokenize;
use crate::tokenizer::split_by_semicolon_within_brackets;
use crate::tokenizer::tokenize;

verus! {

#[derive(PartialEq, Debug, Clone)]
pub struct Param {
    pub name: String,
    pub ty: String,
}

#[derive(PartialEq, Debug, Clone)]
pub struct Function {
    pub name: String,
    pub expressions: Vec<Expression>,
    pub params: Vec<Param>,
    pub return_type: String,
}

#[derive(PartialEq, Debug, Clone)]
pub struct Export {
    pub external_name: String,
    pub function_name: String,
}

#[derive(PartialEq, Debug, Clone)]
pub struct ImportFunction {
    pub name: String,
    pub params: Vec<Param>,
    pub external_name: Vec<String>,
}

#[derive(PartialEq, Debug, Clone)]
pub struct ImportMemory {
    pub size: i32,
    pub external_name: Vec<String>,
}

#[derive(PartialEq, Debug, Clone)]
pub enum Block {
    Function(Function),
    Export(Export),
    ImportFunction(ImportFunction),
    ImportMemory(ImportMemory),
}

/// The mathematical model of a parameter.
pub struct SpecParam {
    pub name: Seq<char>,
    pub ty: Seq<char>,
}

/// The mathematical model of a function definition.
pub struct SpecFunction {
    pub name: Seq<char>,
    pub expressions: Seq<SpecExpression>,
    pub params: Seq<SpecParam>,
    pub return_type: Seq<char>,
}

/// The mathematical model of an export declaration.
pub struct SpecExport {
    pub external_name: Seq<char>,
    pub function_name: Seq<char>,
}

/// The mathematical model of an imported function.
pub struct SpecImportFunction {
    pub name: Seq<char>,
    pub params: Seq<SpecParam>,
    pub external_name: Seq<Seq<char>>,
}

/// The mathematical model of an imported memory.
pub struct SpecImportMemory {
    pub size: int,
    pub external_name: Seq<Seq<char>>,
}

/// The mathematical model of a top-level unit.
pub enum SpecBlock {
    Function(SpecFunction),
    Export(SpecExport),
    ImportFunction(SpecImportFunction),
    ImportMemory(SpecImportMemory),
}

impl View for Param {
    type V = SpecParam;

    open spec fn view(&self) -> SpecParam {
        SpecParam { name: self.name@, ty: self.ty@ }
    }
}

impl DeepView for Param {
    type V = SpecParam;

    open spec fn deep_view(&self) -> SpecParam {
        self.view()
    }
}

impl View for Function {
    type V = SpecFunction;

    open spec fn view(&self) -> SpecFunction {
        SpecFunction {
            name: self.name@,
            expressions: self.expressions.deep_view(),
            params: self.params.deep_view(),
            return_type: self.return_type@,
        }
    }
}

impl DeepView for Function {
    type V = SpecFunction;

    open spec fn deep_view(&self) -> SpecFunction {
        self.view()
    }
}

impl View for Export {
    type V = SpecExport;

    open spec fn view(&self) -> SpecExport {
        SpecExport { external_name: self.external_name@, function_name: self.function_name@ }
    }
}

impl DeepView for Export {
    type V = SpecExport;

    open spec fn deep_view(&self) -> SpecExport {
        self.view()
    }
}

impl View for ImportFunction {
    type V = SpecImportFunction;

    open spec fn view(&self) -> SpecImportFunction {
        SpecImportFunction {
            name: self.name@,
            params: self.params.deep_view(),
            external_name: self.external_name.deep_view(),
        }
    }
}

impl DeepView for ImportFunction {
    type V = SpecImportFunction;

    open spec fn deep_view(&self) -> SpecImportFunction {
        self.view()
    }
}

impl View for ImportMemory {
    type V = SpecImportMemory;

    open spec fn view(&self) -> SpecImportMemory {
        SpecImportMemory { size: self.size as int, external_name: self.external_name.deep_view() }
    }
}

impl DeepView for ImportMemory {
    type V = SpecImportMemory;

    open spec fn deep_view(&self) -> SpecImportMemory {
        self.view()
    }
}

impl View for Block {
    type V = SpecBlock;

    open spec fn view(&self) -> SpecBlock {
        match self {
            Block::Function(f) => SpecBlock::Function(f@),
            Block::Export(e) => SpecBlock::Export(e@),
            Block::ImportFunction(i) => SpecBlock::ImportFunction(i@),
            Block::ImportMemory(i) => SpecBlock::ImportMemory(i@),
        }
    }
}

impl DeepView for Block {
    type V = SpecBlock;

    open spec fn deep_view(&self) -> SpecBlock {
        self.view()
    }
}

/// A copy of a parameter, equal to the original.
pub fn clone_param(p: &Param) -> (r: Param)
    ensures
        r == *p,
{
    Param { name: p.name.clone(), ty: p.ty.clone() }
}

} // verus!

verus! {

/// How a source file falls into top-level blocks: non-blank lines
/// accumulate, and a line that opens with `export` or `import`, or is a
/// lone closing brace, ends the block it belongs to.
pub open spec fn spec_into_blocks_rec(lines: Seq<Seq<char>>, i: int, current: Seq<Seq<char>>) -> Seq<
    Seq<Seq<char>>,
>
    decreases lines.len() - i,
{
    if i < 0 || i >= lines.len() {
        if current.len() == 0 {
            Seq::empty()
        } else {
            seq![current]
        }
    } else {
        let line = lines[i];
        if spec_blank(line) {
            spec_into_blocks_rec(lines, i + 1, current)
        } else {
            let cur2 = current.push(line);
            if "export"@.is_prefix_of(line) || "import"@.is_prefix_of(line) || line == "}"@ {
                seq![cur2] + spec_into_blocks_rec(lines, i + 1, Seq::empty())
            } else {
                spec_into_blocks_rec(lines, i + 1, cur2)
            }
        }
    }
}

pub open spec fn spec_join_blocks(bs: Seq<Seq<Seq<char>>>) -> Seq<Seq<char>>
    decreases bs.len(),
{
    if bs.len() == 0 {
        Seq::empty()
    } else {
        seq![spec_join(bs.first(), "\n"@)] + spec_join_blocks(bs.drop_first())
    }
}

/// The top-level blocks of a source file, each its lines joined back
/// with newlines.
pub open spec fn spec_into_blocks(s: Seq<char>) -> Seq<Seq<char>> {
    spec_join_blocks(spec_into_blocks_rec(spec_split_char(s, '\n'), 0, Seq::empty()))
}

/// Splits a source file into top-level blocks, exactly as
/// `spec_into_blocks` says.
#[verifier::loop_isolation(false)]
pub fn into_blocks(body: String) -> (res: Vec<String>)
    ensures
        res.deep_view() == spec_into_blocks(body@),
{
    let lines = split_string_char(body.as_str(), '\n');
    let ghost lv = lines.deep_view();
    let mut current: Vec<String> = Vec::new();
    let mut blocks: Vec<String> = Vec::new();
    let mut i: usize = 0;
    proof {
        assert(blocks.deep_view() =~= Seq::<Seq<char>>::empty());
        assert(current.deep_view() =~= Seq::<Seq<char>>::empty());
    }
    while i < lines.len()
        invariant
            i <= lines@.len(),
            blocks.deep_view() + spec_join_blocks(
                spec_into_blocks_rec(lv, i as int, current.deep_view()),
            ) == spec_into_blocks(body@),
        decreases lines@.len() - i,
    {
        let ghost pre_blocks = blocks.deep_view();
        let ghost pre_cur = current.deep_view();
        proof {
            assert(lv[i as int] == lines@[i as int]@);
        }
        let line = &lines[i];
        if !str_is_blank(line.as_str()) {
            current.push(line.clone());
            proof {
                assert(current.deep_view() =~= pre_cur.push(lv[i as int]));
            }
            if str_starts_with(line.as_str(), "export") || str_starts_with(line.as_str(), "import")
                || str_eq(line.as_str(), "}") {
                let joined = join_strings(&current, "\n");
                blocks.push(joined);
                current = Vec::new();
                proof {
                    assert(blocks.deep_view() =~= pre_blocks.push(
                        spec_join(pre_cur.push(lv[i as int]), "\n"@),
                    ));
                    assert(current.deep_view() =~= Seq::<Seq<char>>::empty());
                    let cur2 = pre_cur.push(lv[i as int]);
                    let bl = spec_into_blocks_rec(lv, i as int + 1, Seq::<Seq<char>>::empty());
                    assert((seq![cur2] + bl).first() == cur2);
                    assert((seq![cur2] + bl).drop_first() =~= bl);
                    assert(spec_join_blocks(seq![cur2] + bl) == seq![spec_join(cur2, "\n"@)]
                        + spec_join_blocks(bl));
                    let rest = spec_join_blocks(bl);
                    assert(pre_blocks + (seq![spec_join(cur2, "\n"@)] + rest) =~= blocks.deep_view()
                        + rest);
                }
            }
        }
        i += 1;
    }
    proof {
        assert(lv.len() == lines@.len());
        assert(current.deep_view().len() == current@.len());
    }
    if !current.is_empty() {
        let ghost pre_blocks = blocks.deep_view();
        let ghost pre_cur = current.deep_view();
        let joined = join_strings(&current, "\n");
        blocks.push(joined);
        proof {
            let one = seq![pre_cur];
            assert(one.first() == pre_cur);
            assert(one.drop_first() =~= Seq::<Seq<Seq<char>>>::empty());
            assert(spec_join_blocks(Seq::<Seq<Seq<char>>>::empty()) == Seq::<Seq<char>>::empty());
            assert(spec_join_blocks(one) =~= seq![spec_join(pre_cur, "\n"@)]);
            assert(blocks.deep_view() =~= pre_blocks.push(spec_join(pre_cur, "\n"@)));
            assert(pre_blocks + seq![spec_join(pre_cur, "\n"@)] =~= blocks.deep_view());
        }
    } else {
        proof {
            assert(blocks.deep_view() + Seq::<Seq<char>>::empty() =~= blocks.deep_view());
        }
    }
    blocks
}

/// The parameter list between a signature's parentheses, read from
/// position `i`: names paired with the types after their colons, until
/// the closing parenthesis; a name the parenthesis cuts off without a
/// type is an error blamed on the opening parenthesis.
pub open spec fn spec_parse_params(
    ts: Seq<SpecFqt>,
    i: int,
    pending: Option<Seq<char>>,
    entry: SpecFqt,
) -> Result<(Seq<SpecParam>, int), Seq<char>>
    decreases ts.len() - i,
{
    if i < 0 || i >= ts.len() {
        Err("Failed parsing params"@)
    } else {
        match ts[i].token {
            SpecToken::RightParen => match pending {
                Some(name) => Err(
                    spec_error_with_info(
                        "Failed to find type for param "@ + name,
                        entry.line,
                        entry.index,
                    ),
                ),
                None => Ok((Seq::empty(), i + 1)),
            },
            SpecToken::Identifier { body } => match pending {
                Some(name) => (match spec_parse_params(ts, i + 1, None, entry) {
                    Err(e) => Err(e),
                    Ok((ps, next)) => Ok((seq![SpecParam { name, ty: body }] + ps, next)),
                }),
                None => spec_parse_params(ts, i + 1, Some(body), entry),
            },
            SpecToken::Comma => spec_parse_params(ts, i + 1, None, entry),
            SpecToken::Colon => spec_parse_params(ts, i + 1, pending, entry),
            _ => Err("Failed parsing params, got unexpected token "@ + spec_token_text(ts[i].token)),
        }
    }
}

/// Success hands back a position just past what was consumed.
pub proof fn lemma_parse_params_next(
    ts: Seq<SpecFqt>,
    i: int,
    pending: Option<Seq<char>>,
    entry: SpecFqt,
)
    ensures
        (match spec_parse_params(ts, i, pending, entry) {
            Ok((ps, next)) => i < next <= ts.len(),
            Err(e) => true,
        }),
    decreases ts.len() - i,
{
    if 0 <= i < ts.len() {
        match ts[i].token {
            SpecToken::RightParen => {},
            SpecToken::Identifier { body } => match pending {
                Some(name) => {
                    lemma_parse_params_next(ts, i + 1, None, entry);
                },
                None => {
                    lemma_parse_params_next(ts, i + 1, Some(body), entry);
                },
            },
            SpecToken::Comma => {
                lemma_parse_params_next(ts, i + 1, None, entry);
            },
            SpecToken::Colon => {
                lemma_parse_params_next(ts, i + 1, pending, entry);
            },
            _ => {},
        }
    }
}

#[verifier::loop_isolation(false)]
fn parse_params(tokens: &[FullyQualifiedToken], start: usize, entry: &FullyQualifiedToken) -> (r:
    Result<(Vec<Param>, usize), String>)
    requires
        start <= tokens@.len(),
    ensures
        (match r {
            Ok(p) => spec_parse_params(tokens.deep_view(), start as int, None, entry@) == Ok::<
                (Seq<SpecParam>, int),
                Seq<char>,
            >((p.0.deep_view(), p.1 as int)) && p.1 <= tokens@.len(),
            Err(m) => spec_parse_params(tokens.deep_view(), start as int, None, entry@) == Err::<
                (Seq<SpecParam>, int),
                Seq<char>,
            >(m@),
        }),
{
    let ghost dv = tokens.deep_view();
    let n = tokens.len();
    proof {
        assert(dv.len() == n);
    }
    let mut params: Vec<Param> = Vec::new();
    let mut pending: Option<String> = None;
    let mut i = start;
    proof {
        assert(params.deep_view() =~= Seq::<SpecParam>::empty());
        lemma_parse_params_next(dv, start as int, None, entry@);
        if spec_parse_params(dv, start as int, None, entry@) is Ok {
            let pr = spec_parse_params(dv, start as int, None, entry@)->Ok_0;
            assert(Seq::<SpecParam>::empty() + pr.0 =~= pr.0);
        }
    }
    while i < n
        invariant
            start <= i <= n,
            (match spec_parse_params(
                dv,
                i as int,
                (match pending {
                    Some(p) => Some(p@),
                    None => None,
                }),
                entry@,
            ) {
                Ok((ps, next)) => spec_parse_params(dv, start as int, None, entry@) == Ok::<
                    (Seq<SpecParam>, int),
                    Seq<char>,
                >((params.deep_view() + ps, next)) && next <= n,
                Err(e) => spec_parse_params(dv, start as int, None, entry@) == Err::<
                    (Seq<SpecParam>, int),
                    Seq<char>,
                >(e),
            }),
        decreases n - i,
    {
        let ghost pre_params = params.deep_view();
        let fqt = slice_index_get(tokens, i);
        proof {
            assert(dv[i as int] == tokens@[i as int].deep_view());
        }
        match &fqt.token {
            Token::RightParen => {
                match pending {
                    Some(name) => {
                        let mut msg = String::from_str("Failed to find type for param ");
                        msg.append(name.as_str());
                        return error_with_info(msg, entry);
                    },
                    None => {
                        proof {
                            assert(params.deep_view() + Seq::<SpecParam>::empty()
                                =~= params.deep_view());
                        }
                        return Ok((params, i + 1));
                    },
                }
            },
            Token::Identifier { body } => {
                match pending {
                    Some(name) => {
                        let p = Param { name, ty: body.clone() };
                        let ghost sp = p@;
                        params.push(p);
                        pending = None;
                        proof {
                            assert(params.deep_view() =~= pre_params.push(sp));
                            if spec_parse_params(dv, i as int + 1, None, entry@) is Ok {
                                let ps = spec_parse_params(dv, i as int + 1, None, entry@)->Ok_0.0;
                                assert(pre_params + (seq![sp] + ps) =~= params.deep_view() + ps);
                            }
                        }
                    },
                    None => {
                        pending = Some(body.clone());
                    },
                }
            },
            Token::Comma => {
                pending = None;
            },
            Token::Colon => {},
            _ => {
                let mut msg = String::from_str("Failed parsing params, got unexpected token ");
                msg.append(fqt.token.text().as_str());
                return Err(msg);
            },
        }
        i += 1;
    }
    Err(String::from_str("Failed parsing params"))
}

/// Statements of a function body, parsed in order; each parsed statement
/// joins the context the later ones see. Empty groups vanish and the
/// first failure wins.
pub open spec fn spec_parse_stmts(
    groups: Seq<Seq<SpecFqt>>,
    acc: Seq<SpecExpression>,
    params: Seq<SpecParam>,
) -> Result<Seq<SpecExpression>, Seq<char>>
    decreases groups.len(),
{
    if groups.len() == 0 {
        Ok(acc)
    } else if groups.first().len() == 0 {
        spec_parse_stmts(groups.drop_first(), acc, params)
    } else {
        match spec_parse_expression(groups.first(), acc, params) {
            Err(e) => Err(e),
            Ok(exp) => spec_parse_stmts(groups.drop_first(), acc.push(exp), params),
        }
    }
}

/// A function definition: `fn`, its name, the parenthesised parameters,
/// a colon and return type, then the braced body split into statements.
pub open spec fn spec_parse_function(ts: Seq<SpecFqt>) -> Result<SpecFunction, Seq<char>> {
    if ts.len() < 1 {
        Err(Seq::empty())
    } else {
        let fn_token = ts[0];
        if !(1 < ts.len()) {
            Err(spec_error_with_info("Expected a function name but got nothing"@, fn_token.line, fn_token.index))
        } else {
            match ts[1].token {
                SpecToken::Identifier { body: fname } => {
                    if !(2 < ts.len()) {
                        Err("Expected parens but got nothing"@)
                    } else if !(ts[2].token is LeftParen) {
                        Err(
                            spec_error_with_info(
                                "Expected parens but got "@ + spec_token_text(ts[2].token),
                                ts[2].line,
                                ts[2].index,
                            ),
                        )
                    } else {
                        match spec_parse_params(ts, 3, None, ts[2]) {
                            Err(e) => Err(e),
                            Ok((params, i4)) => {
                                if !(i4 < ts.len()) {
                                    Err("Expected colon but got nothing"@)
                                } else if !(ts[i4].token is Colon) {
                                    Err(
                                        spec_error_with_info(
                                            "Failed parsing function signature - expected return type, got "@
                                                + spec_token_text(ts[i4].token),
                                            ts[i4].line,
                                            ts[i4].index,
                                        ),
                                    )
                                } else if !(i4 + 1 < ts.len()) {
                                    Err("Expected return type name, but got nothing"@)
                                } else {
                                    match ts[i4 + 1].token {
                                        SpecToken::Identifier { body: rt } => {
                                            if !(i4 + 2 < ts.len()) {
                                                Err("Expected { but got nothing"@)
                                            } else if !(ts[i4 + 2].token is LeftBracket) {
                                                Err(
                                                    spec_error_with_info(
                                                        "Expected { but got "@ + spec_token_text(
                                                            ts[i4 + 2].token,
                                                        ),
                                                        ts[i4 + 2].line,
                                                        ts[i4 + 2].index,
                                                    ),
                                                )
                                            } else {
                                                let rem = ts.skip(i4 + 3);
                                                let body_tokens = if rem.len() == 0 {
                                                    rem
                                                } else {
                                                    rem.take(rem.len() - 1)
                                                };
                                                match spec_parse_stmts(
                                                    spec_split_statements(body_tokens),
                                                    Seq::empty(),
                                                    params,
                                                ) {
                                                    Err(e) => Err(e),
                                                    Ok(stmts) => Ok(
                                                        SpecFunction {
                                                            name: fname,
                                                            expressions: stmts,
                                                            params,
                                                            return_type: rt,
                                                        },
                                                    ),
                                                }
                                            }
                                        },
                                        _ => Err(
                                            spec_error_with_info(
                                                "Expected return type name, but got "@
                                                    + spec_token_text(ts[i4 + 1].token),
                                                ts[i4 + 1].line,
                                                ts[i4 + 1].index,
                                            ),
                                        ),
                                    }
                                }
                            },
                        }
                    }
                },
                _ => Err(
                    spec_error_with_info(
                        "Expected a function name but got "@ + spec_token_text(ts[1].token),
                        fn_token.line,
                        fn_token.index,
                    ),
                ),
            }
        }
    }
}

} // verus!

verus! {

/// An exported name pair: the external name, then the internal function
/// name.
pub open spec fn spec_parse_export(ts: Seq<SpecFqt>) -> Result<SpecExport, Seq<char>> {
    if !(1 < ts.len()) {
        Err("Expected external name in export"@)
    } else {
        match ts[1].token {
            SpecToken::Identifier { body: external } => {
                if !(2 < ts.len()) {
                    Err("Expected function name in export"@)
                } else {
                    match ts[2].token {
                        SpecToken::Identifier { body: internal } => Ok(
                            SpecExport { external_name: external, function_name: internal },
                        ),
                        _ => Err(
                            spec_error_with_info(
                                "Expected function name in export, got "@ + spec_token_text(
                                    ts[2].token,
                                ),
                                ts[2].line,
                                ts[2].index,
                            ),
                        ),
                    }
                }
            },
            _ => Err(
                spec_error_with_info(
                    "Expected external name in export, got "@ + spec_token_text(ts[1].token),
                    ts[1].line,
                    ts[1].index,
                ),
            ),
        }
    }
}

/// A dotted external path: identifiers kept in order, dots passed over,
/// anything else refused.
pub open spec fn spec_parse_dotted(ts: Seq<SpecFqt>, i: int) -> Result<Seq<Seq<char>>, Seq<char>>
    decreases ts.len() - i,
{
    if i < 0 || i >= ts.len() {
        Ok(Seq::empty())
    } else {
        match ts[i].token {
            SpecToken::Identifier { body } => (match spec_parse_dotted(ts, i + 1) {
                Err(e) => Err(e),
                Ok(rest) => Ok(seq![body] + rest),
            }),
            SpecToken::Dot => spec_parse_dotted(ts, i + 1),
            _ => Err(
                spec_error_with_info(
                    "Expected dot or identifier, got "@ + spec_token_text(ts[i].token),
                    ts[i].line,
                    ts[i].index,
                ),
            ),
        }
    }
}

/// An imported function: its internal name, parameter list, and dotted
/// external path.
pub open spec fn spec_parse_import_function(ts: Seq<SpecFqt>) -> Result<
    SpecImportFunction,
    Seq<char>,
> {
    if !(2 < ts.len()) {
        Err("Expected function name in export"@)
    } else {
        match ts[2].token {
            SpecToken::Identifier { body: name } => {
                if !(3 < ts.len()) {
                    Err("Expected parens but got nothing"@)
                } else if !(ts[3].token is LeftParen) {
                    Err(
                        spec_error_with_info(
                            "Expected parens but got "@ + spec_token_text(ts[3].token),
                            ts[3].line,
                            ts[3].index,
                        ),
                    )
                } else {
                    match spec_parse_params(ts, 4, None, ts[3]) {
                        Err(e) => Err(e),
                        Ok((params, next)) => match spec_parse_dotted(ts, next) {
                            Err(e) => Err(e),
                            Ok(ext) => Ok(
                                SpecImportFunction { name, params, external_name: ext },
                            ),
                        },
                    }
                }
            },
            _ => Err(
                spec_error_with_info(
                    "Expected function name in import, got "@ + spec_token_text(ts[2].token),
                    ts[2].line,
                    ts[2].index,
                ),
            ),
        }
    }
}

/// An imported memory: its decimal page count, then the dotted external
/// path.
pub open spec fn spec_parse_import_memory(ts: Seq<SpecFqt>) -> Result<SpecImportMemory, Seq<char>> {
    if !(2 < ts.len()) {
        Err("Expected memory size but got nothing"@)
    } else {
        match ts[2].token {
            SpecToken::Number { body } => (match spec_parse_i32(body) {
                Err(m) => Err(m),
                Ok(v) => match spec_parse_dotted(ts, 3) {
                    Err(e) => Err(e),
                    Ok(ext) => Ok(SpecImportMemory { size: v, external_name: ext }),
                },
            }),
            _ => Err(
                spec_error_with_info(
                    "Unexpected token "@ + spec_token_text(ts[2].token) + " in import"@,
                    ts[2].line,
                    ts[2].index,
                ),
            ),
        }
    }
}

/// What one top-level block's text parses to: its token stream's leading
/// keyword decides among a function, an export and the two imports.
pub open spec fn spec_parse_block(s: Seq<char>) -> Result<SpecBlock, Seq<char>> {
    let ts = spec_tokenize(s);
    if ts.len() == 0 {
        Err("Unrecoginzed block"@)
    } else {
        match ts[0].token {
            SpecToken::Fn => (match spec_parse_function(ts) {
                Ok(f) => Ok(SpecBlock::Function(f)),
                Err(e) => Err(e),
            }),
            SpecToken::Export => (match spec_parse_export(ts) {
                Ok(e) => Ok(SpecBlock::Export(e)),
                Err(e) => Err(e),
            }),
            SpecToken::Import => {
                if !(1 < ts.len()) {
                    Err("Unexpected token in import statement"@)
                } else {
                    match ts[1].token {
                        SpecToken::Fn => (match spec_parse_import_function(ts) {
                            Ok(f) => Ok(SpecBlock::ImportFunction(f)),
                            Err(e) => Err(e),
                        }),
                        SpecToken::Memory => (match spec_parse_import_memory(ts) {
                            Ok(m) => Ok(SpecBlock::ImportMemory(m)),
                            Err(e) => Err(e),
                        }),
                        _ => Err("Unexpected token in import statement"@),
                    }
                }
            },
            _ => Err("Unrecoginzed block"@),
        }
    }
}

fn parse_dotted(ts: &[FullyQualifiedToken], start: usize) -> (r: Result<Vec<String>, String>)
    requires
        start <= ts@.len(),
    ensures
        (match r {
            Ok(names) => spec_parse_dotted(ts.deep_view(), start as int) == Ok::<
                Seq<Seq<char>>,
                Seq<char>,
            >(names.deep_view()),
            Err(m) => spec_parse_dotted(ts.deep_view(), start as int) == Err::<
                Seq<Seq<char>>,
                Seq<char>,
            >(m@),
        }),
{
    let ghost dv = ts.deep_view();
    let n = ts.len();
    proof {
        assert(dv.len() == n);
    }
    let mut names: Vec<String> = Vec::new();
    let mut i = start;
    proof {
        assert(names.deep_view() =~= Seq::<Seq<char>>::empty());
        if spec_parse_dotted(dv, start as int) is Ok {
            let rest = spec_parse_dotted(dv, start as int)->Ok_0;
            assert(Seq::<Seq<char>>::empty() + rest =~= rest);
        }
    }
    while i < n
        invariant
            start <= i <= n,
            n == ts@.len(),
            dv == ts.deep_view(),
            dv.len() == n,
            (match spec_parse_dotted(dv, i as int) {
                Ok(rest) => spec_parse_dotted(dv, start as int) == Ok::<Seq<Seq<char>>, Seq<char>>(
                    names.deep_view() + rest,
                ),
                Err(e) => spec_parse_dotted(dv, start as int) == Err::<Seq<Seq<char>>, Seq<char>>(
                    e,
                ),
            }),
        decreases n - i,
    {
        let ghost pre = names.deep_view();
        let fqt = slice_index_get(ts, i);
        proof {
            assert(dv[i as int] == ts@[i as int].deep_view());
        }
        match &fqt.token {
            Token::Identifier { body } => {
                names.push(body.clone());
                proof {
                    assert(names.deep_view() =~= pre.push(body@));
                    if spec_parse_dotted(dv, i as int + 1) is Ok {
                        let rest = spec_parse_dotted(dv, i as int + 1)->Ok_0;
                        assert(pre + (seq![body@] + rest) =~= names.deep_view() + rest);
                    }
                }
            },
            Token::Dot => {},
            _ => {
                let mut msg = String::from_str("Expected dot or identifier, got ");
                msg.append(fqt.token.text().as_str());
                return error_with_info(msg, fqt);
            },
        }
        i += 1;
    }
    proof {
        assert(names.deep_view() + Seq::<Seq<char>>::empty() =~= names.deep_view());
    }
    Ok(names)
}

#[verifier::loop_isolation(false)]
#[verifier::rlimit(100)]
fn parse_function(tokens: Vec<FullyQualifiedToken>) -> (r: Result<Function, String>)
    requires
        tokens@.len() >= 1,
    ensures
        (match r {
            Ok(f) => spec_parse_function(tokens.deep_view()) == Ok::<SpecFunction, Seq<char>>(f@),
            Err(m) => spec_parse_function(tokens.deep_view()) == Err::<SpecFunction, Seq<char>>(
                m@,
            ),
        }),
{
    let ts = tokens.as_slice();
    let ghost dv = tokens.deep_view();
    let n = ts.len();
    proof {
        assert(ts.deep_view() =~= dv);
        assert(dv.len() == n);
    }
    let fn_token = slice_index_get(ts, 0);
    proof {
        assert(dv[0] == tokens@[0].deep_view());
    }
    if 1 >= n {
        return error_with_info(
            String::from_str("Expected a function name but got nothing"),
            fn_token,
        );
    }
    let name_fqt = slice_index_get(ts, 1);
    proof {
        assert(dv[1] == tokens@[1].deep_view());
    }
    let function_name = match &name_fqt.token {
        Token::Identifier { body } => body,
        _ => {
            let mut msg = String::from_str("Expected a function name but got ");
            msg.append(name_fqt.token.text().as_str());
            return error_with_info(msg, fn_token);
        },
    };
    if 2 >= n {
        return Err(String::from_str("Expected parens but got nothing"));
    }
    let open_parens = slice_index_get(ts, 2);
    proof {
        assert(dv[2] == tokens@[2].deep_view());
    }
    if !token_eq_left_paren(&open_parens.token) {
        let mut msg = String::from_str("Expected parens but got ");
        msg.append(open_parens.token.text().as_str());
        return error_with_info(msg, open_parens);
    }
    let (params, i4) = match parse_params(ts, 3, open_parens) {
        Err(e) => {
            return Err(e);
        },
        Ok(p) => p,
    };
    if i4 >= n {
        return Err(String::from_str("Expected colon but got nothing"));
    }
    let colon_fqt = slice_index_get(ts, i4);
    proof {
        assert(dv[i4 as int] == tokens@[i4 as int].deep_view());
    }
    match &colon_fqt.token {
        Token::Colon => {},
        _ => {
            let mut msg = String::from_str(
                "Failed parsing function signature - expected return type, got ",
            );
            msg.append(colon_fqt.token.text().as_str());
            return error_with_info(msg, colon_fqt);
        },
    }
    if i4 + 1 >= n {
        return Err(String::from_str("Expected return type name, but got nothing"));
    }
    let rt_fqt = slice_index_get(ts, i4 + 1);
    proof {
        assert(dv[i4 as int + 1] == tokens@[i4 as int + 1].deep_view());
    }
    let return_type = match &rt_fqt.token {
        Token::Identifier { body } => body,
        _ => {
            let mut msg = String::from_str("Expected return type name, but got ");
            msg.append(rt_fqt.token.text().as_str());
            return error_with_info(msg, rt_fqt);
        },
    };
    if i4 + 2 >= n {
        return Err(String::from_str("Expected { but got nothing"));
    }
    let brace_fqt = slice_index_get(ts, i4 + 2);
    proof {
        assert(dv[i4 as int + 2] == tokens@[i4 as int + 2].deep_view());
    }
    match &brace_fqt.token {
        Token::LeftBracket => {},
        _ => {
            let mut msg = String::from_str("Expected { but got ");
            msg.append(brace_fqt.token.text().as_str());
            return error_with_info(msg, brace_fqt);
        },
    }
    let rem = slice_subrange(ts, i4 + 3, n);
    proof {
        assert(rem.deep_view() =~= dv.skip(i4 as int + 3));
    }
    let body_slice = if rem.len() == 0 {
        rem
    } else {
        slice_subrange(rem, 0, rem.len() - 1)
    };
    proof {
        if rem@.len() == 0 {
            assert(body_slice.deep_view() =~= dv.skip(i4 as int + 3));
        } else {
            assert(body_slice.deep_view() =~= dv.skip(i4 as int + 3).take(
                dv.skip(i4 as int + 3).len() - 1,
            ));
        }
    }
    let body_vec = slice_to_vec_fqt(body_slice);
    let groups = split_by_semicolon_within_brackets(body_vec);
    let ghost gs = groups.deep_view();
    let ghost paramsv = params.deep_view();
    let mut expressions: Vec<Expression> = Vec::new();
    let mut k: usize = 0;
    proof {
        assert(view_expr_seq(expressions@) =~= Seq::<SpecExpression>::empty());
        assert(gs.skip(0) =~= gs);
    }
    while k < groups.len()
        invariant
            k <= groups@.len(),
            spec_parse_stmts(gs, Seq::empty(), paramsv) == spec_parse_stmts(
                gs.skip(k as int),
                view_expr_seq(expressions@),
                paramsv,
            ),
        decreases groups@.len() - k,
    {
        proof {
            assert(gs.skip(k as int).first() == gs[k as int]);
            assert(gs.skip(k as int).drop_first() =~= gs.skip(k as int + 1));
            assert(gs[k as int] == groups@[k as int].deep_view());
        }
        let g = &groups[k];
        if g.len() > 0 {
            proof {
                lemma_deep_view_exprs(&expressions);
            }
            match parse_expression(g.as_slice(), &expressions, &params) {
                Err(e) => {
                    proof {
                        assert(spec_parse_stmts(gs, Seq::empty(), paramsv) == Err::<
                            Seq<SpecExpression>,
                            Seq<char>,
                        >(e@));
                    }
                    return Err(e);
                },
                Ok(exp) => {
                    let ghost exv = exp;
                    let ghost pre = expressions@;
                    expressions.push(exp);
                    proof {
                        assert(expressions@ =~= pre.push(exv));
                        lemma_view_expr_seq_index(pre);
                        lemma_view_expr_seq_index(pre.push(exv));
                        assert(view_expr_seq(pre.push(exv)) =~= view_expr_seq(pre).push(
                            view_expr(exv),
                        ));
                    }
                },
            }
        }
        k += 1;
    }
    proof {
        assert(gs.skip(groups@.len() as int).len() == 0);
        lemma_deep_view_exprs(&expressions);
    }
    Ok(
        Function {
            name: function_name.clone(),
            expressions,
            params,
            return_type: return_type.clone(),
        },
    )
}

fn token_eq_left_paren(t: &Token) -> (r: bool)
    ensures
        r == (t@ is LeftParen),
{
    match t {
        Token::LeftParen => true,
        _ => false,
    }
}

fn parse_export(tokens: Vec<FullyQualifiedToken>) -> (r: Result<Export, String>)
    ensures
        (match r {
            Ok(e) => spec_parse_export(tokens.deep_view()) == Ok::<SpecExport, Seq<char>>(e@),
            Err(m) => spec_parse_export(tokens.deep_view()) == Err::<SpecExport, Seq<char>>(m@),
        }),
{
    let ts = tokens.as_slice();
    let ghost dv = tokens.deep_view();
    let n = ts.len();
    proof {
        assert(ts.deep_view() =~= dv);
        assert(dv.len() == n);
    }
    if 1 >= n {
        return Err(String::from_str("Expected external name in export"));
    }
    let ext_fqt = slice_index_get(ts, 1);
    proof {
        assert(dv[1] == tokens@[1].deep_view());
    }
    let external_name = match &ext_fqt.token {
        Token::Identifier { body } => body,
        _ => {
            let mut msg = String::from_str("Expected external name in export, got ");
            msg.append(ext_fqt.token.text().as_str());
            return error_with_info(msg, ext_fqt);
        },
    };
    if 2 >= n {
        return Err(String::from_str("Expected function name in export"));
    }
    let int_fqt = slice_index_get(ts, 2);
    proof {
        assert(dv[2] == tokens@[2].deep_view());
    }
    let function_name = match &int_fqt.token {
        Token::Identifier { body } => body,
        _ => {
            let mut msg = String::from_str("Expected function name in export, got ");
            msg.append(int_fqt.token.text().as_str());
            return error_with_info(msg, int_fqt);
        },
    };
    Ok(Export { external_name: external_name.clone(), function_name: function_name.clone() })
}

fn parse_import_function(tokens: Vec<FullyQualifiedToken>) -> (r: Result<ImportFunction, String>)
    ensures
        (match r {
            Ok(f) => spec_parse_import_function(tokens.deep_view()) == Ok::<
                SpecImportFunction,
                Seq<char>,
            >(f@),
            Err(m) => spec_parse_import_function(tokens.deep_view()) == Err::<
                SpecImportFunction,
                Seq<char>,
            >(m@),
        }),
{
    let ts = tokens.as_slice();
    let ghost dv = tokens.deep_view();
    let n = ts.len();
    proof {
        assert(ts.deep_view() =~= dv);
        assert(dv.len() == n);
    }
    if 2 >= n {
        return Err(String::from_str("Expected function name in export"));
    }
    let name_fqt = slice_index_get(ts, 2);
    proof {
        assert(dv[2] == tokens@[2].deep_view());
    }
    let name = match &name_fqt.token {
        Token::Identifier { body } => body,
        _ => {
            let mut msg = String::from_str("Expected function name in import, got ");
            msg.append(name_fqt.token.text().as_str());
            return error_with_info(msg, name_fqt);
        },
    };
    if 3 >= n {
        return Err(String::from_str("Expected parens but got nothing"));
    }
    let open_parens = slice_index_get(ts, 3);
    proof {
        assert(dv[3] == tokens@[3].deep_view());
    }
    if !token_eq_left_paren(&open_parens.token) {
        let mut msg = String::from_str("Expected parens but got ");
        msg.append(open_parens.token.text().as_str());
        return error_with_info(msg, open_parens);
    }
    let (params, next) = match parse_params(ts, 4, open_parens) {
        Err(e) => {
            return Err(e);
        },
        Ok(p) => p,
    };
    let external_name = match parse_dotted(ts, next) {
        Err(e) => {
            return Err(e);
        },
        Ok(names) => names,
    };
    Ok(ImportFunction { name: name.clone(), params, external_name })
}

fn parse_import_memory(tokens: Vec<FullyQualifiedToken>) -> (r: Result<ImportMemory, String>)
    ensures
        (match r {
            Ok(m) => spec_parse_import_memory(tokens.deep_view()) == Ok::<
                SpecImportMemory,
                Seq<char>,
            >(m@),
            Err(m) => spec_parse_import_memory(tokens.deep_view()) == Err::<
                SpecImportMemory,
                Seq<char>,
            >(m@),
        }),
{
    let ts = tokens.as_slice();
    let ghost dv = tokens.deep_view();
    let n = ts.len();
    proof {
        assert(ts.deep_view() =~= dv);
        assert(dv.len() == n);
    }
    if 2 >= n {
        return Err(String::from_str("Expected memory size but got nothing"));
    }
    let size_fqt = slice_index_get(ts, 2);
    proof {
        assert(dv[2] == tokens@[2].deep_view());
    }
    let size = match &size_fqt.token {
        Token::Number { body } => {
            match parse_i32(body.as_str()) {
                Ok(v) => v,
                Err(e) => {
                    return Err(e);
                },
            }
        },
        _ => {
            let mut msg = String::from_str("Unexpected token ");
            msg.append(size_fqt.token.text().as_str());
            msg.append(" in import");
            return error_with_info(msg, size_fqt);
        },
    };
    let external_name = match parse_dotted(ts, 3) {
        Err(e) => {
            return Err(e);
        },
        Ok(names) => names,
    };
    Ok(ImportMemory { size, external_name })
}

/// Parses one top-level block's text, returning exactly what
/// `spec_parse_block` gives.
pub fn parse_block(body: String) -> (r: Result<Block, String>)
    ensures
        (match r {
            Ok(b) => spec_parse_block(body@) == Ok::<SpecBlock, Seq<char>>(b@),
            Err(m) => spec_parse_block(body@) == Err::<SpecBlock, Seq<char>>(m@),
        }),
{
    let ghost sv = body@;
    let tokens = tokenize(body);
    let ghost dv = tokens.deep_view();
    if tokens.len() == 0 {
        return Err(String::from_str("Unrecoginzed block"));
    }
    proof {
        assert(dv[0] == tokens@[0].deep_view());
    }
    let first = slice_index_get(tokens.as_slice(), 0);
    match &first.token {
        Token::Fn => {
            match parse_function(tokens) {
                Ok(f) => Ok(Block::Function(f)),
                Err(e) => Err(e),
            }
        },
        Token::Export => {
            match parse_export(tokens) {
                Ok(e) => Ok(Block::Export(e)),
                Err(e) => Err(e),
            }
        },
        Token::Import => {
            if tokens.len() < 2 {
                return Err(String::from_str("Unexpected token in import statement"));
            }
            proof {
                assert(dv[1] == tokens@[1].deep_view());
            }
            let second = slice_index_get(tokens.as_slice(), 1);
            match &second.token {
                Token::Fn => {
                    match parse_import_function(tokens) {
                        Ok(f) => Ok(Block::ImportFunction(f)),
                        Err(e) => Err(e),
                    }
                },
                Token::Memory => {
                    match parse_import_memory(tokens) {
                        Ok(m) => Ok(Block::ImportMemory(m)),
                        Err(e) => Err(e),
                    }
                },
                _ => Err(String::from_str("Unexpected token in import statement")),
            }
        },
        _ => Err(String::from_str("Unrecoginzed block")),
    }
}

} // verus!
