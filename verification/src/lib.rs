//! A small text-templating library: template text is compiled once against a
//! schema of named fields, then the compiled form is rendered against many
//! rows of data.
//!
//! The pipeline is: tokenizer -> parser -> constant-folding optimizer ->
//! bytecode compiler -> interpreter.  All identifier and filter checks happen
//! at compile time, so rendering a compiled template against a conforming row
//! cannot fail.

pub mod ast;
pub mod bytecode;
pub mod eval;
pub mod filter;
pub mod laws;
pub mod num;
pub mod optimize;
pub mod schema;
pub mod token;
pub mod value;

use vstd::prelude::*;

use crate::bytecode::Bytecode;
use crate::bytecode::BytecodeS;
use crate::bytecode::CompileError;
use crate::bytecode::CompileErrorS;
use crate::bytecode::compile_program;
use crate::bytecode::vm_output;
use crate::eval::render_program;
use crate::filter::Filter;
use crate::filter::FilterS;
use crate::filter::filters_wf;
use crate::optimize::opt_program;
use crate::optimize::optimize;
use crate::schema::row_conforms;
use crate::token::spec_tokenize;
use crate::token::tokenize;
use crate::ast::spec_parse;
use crate::ast::parse;
use crate::value::Ty;
use crate::value::Value;
use crate::value::ValueS;

verus! {

/// What `compile` returns: the template is lexed, parsed, folded against the
/// Environment values, and lowered against the Row table and the filter
/// registry; the first error of any stage aborts the whole compilation.
pub open spec fn spec_compile(
    s: Seq<u8>,
    env: Seq<(Seq<u8>, ValueS)>,
    sch: Seq<(Seq<u8>, Ty)>,
    fs: Seq<FilterS>,
) -> Result<BytecodeS, CompileErrorS> {
    match spec_tokenize(s) {
        Err(e) => Err(CompileErrorS::Lex(e)),
        Ok(ts) => match spec_parse(ts) {
            Err(e) => Err(CompileErrorS::Parse(e)),
            Ok(p) => match compile_program(opt_program(p, env, fs), env, sch, fs) {
                Ok(ins) => Ok(
                    BytecodeS { instrs: ins, row_tys: sch.map_values(|f: (Seq<u8>, Ty)| f.1) },
                ),
                Err(e) => Err(e),
            },
        },
    }
}

/// Compiles a template against Environment values, a Row table and a filter
/// registry.  Every identifier and every filter call is checked here; a
/// returned `Bytecode` renders any conforming row without failure.
pub fn compile(
    template: &Vec<u8>,
    env: &Vec<(Vec<u8>, Value)>,
    sch: &Vec<(Vec<u8>, Ty)>,
    fs: &Vec<Filter>,
) -> (r: Result<Bytecode, CompileError>)
    ensures
        r matches Ok(bc) ==> spec_compile(
            template@,
            env.deep_view(),
            sch.deep_view(),
            fs.deep_view(),
        ) matches Ok(b) && bc.deep_view() == b,
        r matches Err(e) ==> spec_compile(
            template@,
            env.deep_view(),
            sch.deep_view(),
            fs.deep_view(),
        ) == Err::<BytecodeS, CompileErrorS>(e.deep_view()),
{
    let ts = match tokenize(template) {
        Ok(ts) => ts,
        Err(e) => {
            return Err(CompileError::Lex(e));
        },
    };
    let p = match parse(&ts) {
        Ok(p) => p,
        Err(e) => {
            return Err(CompileError::Parse(e));
        },
    };
    let q = optimize(p, env, fs);
    Bytecode::from_ast(&q, env, sch, fs)
}

/// Determinism: two compilations of the same template against the same
/// Environment, Row table and registry yield bytecode that writes identical
/// bytes for identical rows.
pub proof fn lemma_compile_deterministic(
    s: Seq<u8>,
    env: Seq<(Seq<u8>, ValueS)>,
    sch: Seq<(Seq<u8>, Ty)>,
    fs: Seq<FilterS>,
    bc1: BytecodeS,
    bc2: BytecodeS,
    row: Seq<ValueS>,
)
    requires
        spec_compile(s, env, sch, fs) == Ok::<BytecodeS, CompileErrorS>(bc1),
        spec_compile(s, env, sch, fs) == Ok::<BytecodeS, CompileErrorS>(bc2),
    ensures
        bc1 == bc2,
        vm_output(bc1.instrs, row) == vm_output(bc2.instrs, row),
{
}

/// Folding correctness and render correctness, end to end: the bytes a
/// compiled template writes for a conforming row are exactly the rendered
/// text of the template as parsed — folding only moves work, never changes
/// output.
pub proof fn lemma_compile_renders(
    s: Seq<u8>,
    env: Seq<(Seq<u8>, ValueS)>,
    sch: Seq<(Seq<u8>, Ty)>,
    fs: Seq<FilterS>,
    bc: BytecodeS,
    row: Seq<ValueS>,
)
    requires
        filters_wf(fs),
        row_conforms(row, sch),
        sch.len() <= usize::MAX,
        spec_compile(s, env, sch, fs) == Ok::<BytecodeS, CompileErrorS>(bc),
    ensures
        spec_tokenize(s) is Ok,
        spec_parse(spec_tokenize(s)->Ok_0) is Ok,
        compile_program(spec_parse(spec_tokenize(s)->Ok_0)->Ok_0, env, sch, fs) is Ok,
        vm_output(bc.instrs, row) == render_program(
            spec_parse(spec_tokenize(s)->Ok_0)->Ok_0,
            env,
            sch,
            row,
            fs,
        ),
{
    let p = spec_parse(spec_tokenize(s)->Ok_0)->Ok_0;
    crate::laws::lemma_optimizer_transparent(p, env, sch, fs, row);
}

/// Fail-fast: when the template lexes and parses, compilation succeeds
/// exactly when every semantic check (identifier resolution, filter arity,
/// filter input type, operator operand type) passes on the parsed program,
/// and a failing check surfaces as that same error — folding cannot mask it.
/// No bytecode exists in the error case, by the shape of the result.
pub proof fn lemma_fail_fast(
    s: Seq<u8>,
    env: Seq<(Seq<u8>, ValueS)>,
    sch: Seq<(Seq<u8>, Ty)>,
    fs: Seq<FilterS>,
)
    requires
        filters_wf(fs),
        spec_tokenize(s) is Ok,
        spec_parse(spec_tokenize(s)->Ok_0) is Ok,
    ensures
        ({
            let p = spec_parse(spec_tokenize(s)->Ok_0)->Ok_0;
            &&& (spec_compile(s, env, sch, fs) is Ok <==> compile_program(p, env, sch, fs) is Ok)
            &&& (compile_program(p, env, sch, fs) is Err ==> spec_compile(s, env, sch, fs)
                == Err::<BytecodeS, CompileErrorS>(compile_program(p, env, sch, fs)->Err_0))
        }),
{
    let p = spec_parse(spec_tokenize(s)->Ok_0)->Ok_0;
    crate::laws::lemma_opt_compile_same_segs(p, 0, env, sch, fs);
}

} // verus!
