//! The top-level driver: a source file splits into blocks, every block
//! is parsed independently, and either all of them form a program or the
//! failures are reported together, one per line, none masking another.
use vstd::prelude::*;
use vstd::string::StrSliceExecFns;
use vstd::string::StringExecFns;
use crate::blocks::Block;
use crate::blocks::SpecBlock;
use crate::blocks::into_blocks;
use crate::blocks::parse_block;
use crate::blocks::spec_into_blocks;
use crate::blocks::spec_parse_block;
use crate::text::join_strings;
use crate::text::spec_join;

verus! {

#[derive(PartialEq, Debug, Clone)]
pub struct Program {
    pub blocks: Vec<Block>,
}

/// The mathematical model of a parsed program.
pub struct SpecProgram {
    pub blocks: Seq<SpecBlock>,
}

impl View for Program {
    type V = SpecProgram;

    open spec fn view(&self) -> SpecProgram {
        SpecProgram { blocks: self.blocks.deep_view() }
    }
}

impl DeepView for Program {
    type V = SpecProgram;

    open spec fn deep_view(&self) -> SpecProgram {
        self.view()
    }
}

/// What parsing every block yields: the parsed blocks in order, and the
/// failure messages in order, each block contributing to exactly one of
/// the two.
pub open spec fn spec_parse_blocks(bs: Seq<Seq<char>>) -> (Seq<SpecBlock>, Seq<Seq<char>>)
    decreases bs.len(),
{
    if bs.len() == 0 {
        (Seq::empty(), Seq::empty())
    } else {
        let rest = spec_parse_blocks(bs.drop_first());
        match spec_parse_block(bs.first()) {
            Ok(b) => (seq![b] + rest.0, rest.1),
            Err(e) => (rest.0, seq![e] + rest.1),
        }
    }
}

/// What parsing a whole source file returns: the program when every
/// block parses, else every block's failure joined with newlines, in
/// block order.
pub open spec fn spec_parse(s: Seq<char>) -> Result<SpecProgram, Seq<char>> {
    let bs = spec_into_blocks(s);
    if bs.len() == 0 {
        Ok(SpecProgram { blocks: Seq::empty() })
    } else {
        let (blocks, errors) = spec_parse_blocks(bs);
        if errors.len() > 0 {
            Err(spec_join(errors, "\n"@))
        } else {
            Ok(SpecProgram { blocks })
        }
    }
}

/// Parses a whole source file, returning exactly what `spec_parse`
/// gives.
#[verifier::loop_isolation(false)]
pub fn parse(body: String) -> (r: Result<Program, String>)
    ensures
        (match r {
            Ok(p) => spec_parse(body@) == Ok::<SpecProgram, Seq<char>>(p@),
            Err(m) => spec_parse(body@) == Err::<SpecProgram, Seq<char>>(m@),
        }),
{
    let ghost sv = body@;
    let unparsed_blocks = into_blocks(body);
    let ghost bv = unparsed_blocks.deep_view();
    if unparsed_blocks.len() == 0 {
        let program = Program { blocks: Vec::new() };
        proof {
            assert(program@.blocks =~= Seq::<SpecBlock>::empty());
        }
        return Ok(program);
    }
    let mut blocks: Vec<Block> = Vec::new();
    let mut errors: Vec<String> = Vec::new();
    let mut i: usize = 0;
    proof {
        assert(bv.skip(0) =~= bv);
        assert(blocks.deep_view() =~= Seq::<SpecBlock>::empty());
        assert(errors.deep_view() =~= Seq::<Seq<char>>::empty());
    }
    while i < unparsed_blocks.len()
        invariant
            i <= unparsed_blocks@.len(),
            ({
                let rest = spec_parse_blocks(bv.skip(i as int));
                spec_parse_blocks(bv).0 == blocks.deep_view() + rest.0 && spec_parse_blocks(bv).1
                    == errors.deep_view() + rest.1
            }),
        decreases unparsed_blocks@.len() - i,
    {
        let ghost pre_blocks = blocks.deep_view();
        let ghost pre_errors = errors.deep_view();
        proof {
            assert(bv.skip(i as int).first() == bv[i as int]);
            assert(bv.skip(i as int).drop_first() =~= bv.skip(i as int + 1));
            assert(bv[i as int] == unparsed_blocks@[i as int]@);
        }
        match parse_block(unparsed_blocks[i].clone()) {
            Ok(block) => {
                let ghost blv = block@;
                blocks.push(block);
                proof {
                    assert(blocks.deep_view() =~= pre_blocks.push(blv));
                    let rest2 = spec_parse_blocks(bv.skip(i as int + 1));
                    assert(pre_blocks + (seq![blv] + rest2.0) =~= blocks.deep_view() + rest2.0);
                }
            },
            Err(error) => {
                let ghost ev = error@;
                errors.push(error);
                proof {
                    assert(errors.deep_view() =~= pre_errors.push(ev));
                    let rest2 = spec_parse_blocks(bv.skip(i as int + 1));
                    assert(pre_errors + (seq![ev] + rest2.1) =~= errors.deep_view() + rest2.1);
                }
            },
        }
        i += 1;
    }
    proof {
        assert(bv.skip(unparsed_blocks@.len() as int).len() == 0);
        assert(blocks.deep_view() + Seq::<SpecBlock>::empty() =~= blocks.deep_view());
        assert(errors.deep_view() + Seq::<Seq<char>>::empty() =~= errors.deep_view());
    }
    if errors.len() > 0 {
        Err(join_strings(&errors, "\n"))
    } else {
        Ok(Program { blocks })
    }
}

/// The number of blocks among the first `i` whose parse fails.
pub open spec fn spec_err_count(bs: Seq<Seq<char>>, i: int) -> int
    decreases i,
{
    if i <= 0 {
        0
    } else {
        spec_err_count(bs, i - 1) + if spec_parse_block(bs[i - 1]) is Err {
            1int
        } else {
            0int
        }
    }
}

proof fn lemma_err_count_shift(bs: Seq<Seq<char>>, i: int)
    requires
        1 <= i <= bs.len(),
    ensures
        spec_err_count(bs, i) == (if spec_parse_block(bs[0]) is Err {
            1int
        } else {
            0int
        }) + spec_err_count(bs.drop_first(), i - 1),
    decreases i,
{
    if i == 1 {
        assert(spec_err_count(bs, 0) == 0);
        assert(spec_err_count(bs.drop_first(), 0) == 0);
    } else {
        lemma_err_count_shift(bs, i - 1);
        assert(bs.drop_first()[i - 2] == bs[i - 1]);
        assert(spec_err_count(bs.drop_first(), i - 1) == spec_err_count(bs.drop_first(), i - 2)
            + if spec_parse_block(bs.drop_first()[i - 2]) is Err {
            1int
        } else {
            0int
        });
    }
}

proof fn lemma_err_count_mono(bs: Seq<Seq<char>>, i: int, j: int)
    requires
        0 <= i <= j <= bs.len(),
    ensures
        spec_err_count(bs, i) <= spec_err_count(bs, j),
        0 <= i < j && spec_parse_block(bs[i]) is Err ==> spec_err_count(bs, i) + 1
            <= spec_err_count(bs, j),
    decreases j - i,
{
    if i < j {
        lemma_err_count_mono(bs, i + 1, j);
    }
}

/// A failing block's message lands in the report's error list exactly at
/// the position given by how many blocks failed before it.
proof fn lemma_parse_blocks_err_at(bs: Seq<Seq<char>>, i: int)
    requires
        0 <= i < bs.len(),
        spec_parse_block(bs[i]) is Err,
    ensures
        0 <= spec_err_count(bs, i) < spec_parse_blocks(bs).1.len(),
        spec_parse_blocks(bs).1[spec_err_count(bs, i)] == spec_parse_block(bs[i])->Err_0,
    decreases bs.len(),
{
    lemma_err_count_mono(bs, 0, i);
    let rest = spec_parse_blocks(bs.drop_first());
    if i == 0 {
        assert(spec_parse_blocks(bs).1 == seq![spec_parse_block(bs[0])->Err_0] + rest.1);
    } else {
        lemma_parse_blocks_err_at(bs.drop_first(), i - 1);
        lemma_err_count_shift(bs, i);
        assert(bs.drop_first()[i - 1] == bs[i]);
        match spec_parse_block(bs.first()) {
            Ok(b) => {
                assert(spec_parse_blocks(bs).1 == rest.1);
            },
            Err(e) => {
                assert(spec_parse_blocks(bs).1 == seq![e] + rest.1);
            },
        }
    }
}

/// Error aggregation: when two distinct blocks of a source file are both
/// malformed, the parse of the whole file fails with the newline-joined
/// report of every failing block's message, and both blocks' messages
/// stand in that report's list in block order, neither masking the
/// other.
pub proof fn lemma_error_aggregation(s: Seq<char>, i: int, j: int)
    requires
        0 <= i < j < spec_into_blocks(s).len(),
        spec_parse_block(spec_into_blocks(s)[i]) is Err,
        spec_parse_block(spec_into_blocks(s)[j]) is Err,
    ensures
        spec_parse(s) is Err,
        spec_parse(s) == Err::<SpecProgram, Seq<char>>(
            spec_join(spec_parse_blocks(spec_into_blocks(s)).1, "\n"@),
        ),
        (exists|k1: int, k2: int|
            #![trigger spec_parse_blocks(spec_into_blocks(s)).1[k1], spec_parse_blocks(spec_into_blocks(s)).1[k2]]
            {
                let errors = spec_parse_blocks(spec_into_blocks(s)).1;
                0 <= k1 < k2 < errors.len() && errors[k1] == spec_parse_block(
                    spec_into_blocks(s)[i],
                )->Err_0 && errors[k2] == spec_parse_block(spec_into_blocks(s)[j])->Err_0
            }),
{
    let bs = spec_into_blocks(s);
    let errors = spec_parse_blocks(bs).1;
    lemma_parse_blocks_err_at(bs, i);
    lemma_parse_blocks_err_at(bs, j);
    lemma_err_count_mono(bs, i, j);
    let k1 = spec_err_count(bs, i);
    let k2 = spec_err_count(bs, j);
    assert(0 <= k1 < k2 < errors.len() && errors[k1] == spec_parse_block(bs[i])->Err_0
        && errors[k2] == spec_parse_block(bs[j])->Err_0);
}

} // verus!
