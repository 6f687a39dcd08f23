//! Lowering to bytecode, and the interpreter that renders it.
//!
//! Every identifier and filter call is resolved here, against the Schema
//! Binding and the Filter Registry: an unknown name, a wrong argument count
//! or a wrong input type aborts compilation.  The instructions reference only
//! compiled-in constants, row slot indices and filter operations — never raw
//! names — so rendering a compiled template against a conforming row cannot
//! fail.

use vstd::prelude::*;

use crate::ast::BinOp;
use crate::ast::Expr;
use crate::ast::ExprS;
use crate::ast::Segment;
use crate::ast::SegmentS;
use crate::ast::ParseError;
use crate::eval::num_op;
use crate::eval::num_op_exec;
use crate::filter::Filter;
use crate::filter::FilterS;
use crate::filter::FilterOp;
use crate::filter::filter_find;
use crate::filter::find_filter;
use crate::filter::apply_filter;
use crate::filter::as_num_exec;
use crate::filter::spec_apply_filter;
use crate::num::Num;
use crate::schema::env_lookup;
use crate::schema::slot_lookup;
use crate::schema::find_env;
use crate::schema::find_slot;
use crate::token::LexError;
use crate::value::Ty;
use crate::value::Value;
use crate::value::ValueS;
use crate::value::as_num;
use crate::value::spec_fmt_value;
use crate::value::clone_bytes;
use crate::value::clone_value;
use crate::value::fmt_value_push;

verus! {

/// One bytecode instruction of the stack machine.
#[derive(Debug)]
pub enum Instr {
    /// Append literal bytes to the output.
    Append(Vec<u8>),
    /// Push a number constant.
    PushNum(Num),
    /// Push a string constant.
    PushStr(Vec<u8>),
    /// Push the value of a row slot.
    Load(usize),
    /// Pop two numbers, push the result of the operator.
    Arith(BinOp),
    /// Pop a value, push the filter's result.
    Call(FilterOp, Vec<Num>),
    /// Pop a value and append its rendered text to the output.
    Emit,
}

/// The mathematical shape of an instruction.
pub enum InstrS {
    Append(Seq<u8>),
    PushNum(Num),
    PushStr(Seq<u8>),
    Load(usize),
    Arith(BinOp),
    Call(FilterOp, Seq<Num>),
    Emit,
}

impl DeepView for Instr {
    type V = InstrS;

    open spec fn deep_view(&self) -> InstrS {
        match self {
            Instr::Append(v) => InstrS::Append(v.deep_view()),
            Instr::PushNum(n) => InstrS::PushNum(*n),
            Instr::PushStr(v) => InstrS::PushStr(v.deep_view()),
            Instr::Load(i) => InstrS::Load(*i),
            Instr::Arith(op) => InstrS::Arith(*op),
            Instr::Call(op, args) => InstrS::Call(*op, args.deep_view()),
            Instr::Emit => InstrS::Emit,
        }
    }
}

/// A compilation failure: a lexical error, a syntactic error, or one of the
/// semantic checks.
#[derive(Debug)]
pub enum CompileError {
    Lex(LexError),
    Parse(ParseError),
    /// The named identifier is in neither the Environment nor the Row table.
    UnknownIdentifier(Vec<u8>),
    /// The named filter is not in the registry.
    UnknownFilter(Vec<u8>),
    /// The named filter was called with the wrong number of arguments.
    FilterArityMismatch { name: Vec<u8>, expected: usize, found: usize },
    /// The named filter was fed an expression of the wrong type.
    FilterTypeMismatch { name: Vec<u8>, expected: Ty, found: Ty },
    /// An arithmetic operator was applied to a string operand.
    OperatorTypeMismatch,
}

/// The mathematical shape of a compilation failure.
pub enum CompileErrorS {
    Lex(LexError),
    Parse(ParseError),
    UnknownIdentifier(Seq<u8>),
    UnknownFilter(Seq<u8>),
    FilterArityMismatch { name: Seq<u8>, expected: usize, found: usize },
    FilterTypeMismatch { name: Seq<u8>, expected: Ty, found: Ty },
    OperatorTypeMismatch,
}

impl DeepView for CompileError {
    type V = CompileErrorS;

    open spec fn deep_view(&self) -> CompileErrorS {
        match self {
            CompileError::Lex(e) => CompileErrorS::Lex(*e),
            CompileError::Parse(e) => CompileErrorS::Parse(*e),
            CompileError::UnknownIdentifier(n) => CompileErrorS::UnknownIdentifier(n.deep_view()),
            CompileError::UnknownFilter(n) => CompileErrorS::UnknownFilter(n.deep_view()),
            CompileError::FilterArityMismatch { name, expected, found } => (
            CompileErrorS::FilterArityMismatch {
                name: name.deep_view(),
                expected: *expected,
                found: *found,
            }),
            CompileError::FilterTypeMismatch { name, expected, found } => (
            CompileErrorS::FilterTypeMismatch {
                name: name.deep_view(),
                expected: *expected,
                found: *found,
            }),
            CompileError::OperatorTypeMismatch => CompileErrorS::OperatorTypeMismatch,
        }
    }
}

/// The instructions an expression lowers to, and the type of the value they
/// leave on the stack; or the first semantic error, found left to right,
/// input before filter.
pub open spec fn compile_expr(
    e: ExprS,
    env: Seq<(Seq<u8>, ValueS)>,
    sch: Seq<(Seq<u8>, Ty)>,
    fs: Seq<FilterS>,
) -> Result<(Seq<InstrS>, Ty), CompileErrorS>
    decreases e,
{
    match e {
        ExprS::Field(name) => match env_lookup(env, name) {
            Some(v) => match v {
                ValueS::Num(n) => Ok((seq![InstrS::PushNum(n)], Ty::Num)),
                ValueS::Str(s) => Ok((seq![InstrS::PushStr(s)], Ty::Str)),
            },
            None => match slot_lookup(sch, name) {
                Some(st) => Ok((seq![InstrS::Load(st.0 as usize)], st.1)),
                None => Err(CompileErrorS::UnknownIdentifier(name)),
            },
        },
        ExprS::NumLit(n) => Ok((seq![InstrS::PushNum(n)], Ty::Num)),
        ExprS::StrLit(v) => Ok((seq![InstrS::PushStr(v)], Ty::Str)),
        ExprS::Bin(op, l, r) => match compile_expr(*l, env, sch, fs) {
            Ok(lc) => match compile_expr(*r, env, sch, fs) {
                Ok(rc) => if lc.1 == Ty::Num && rc.1 == Ty::Num {
                    Ok((lc.0 + rc.0 + seq![InstrS::Arith(op)], Ty::Num))
                } else {
                    Err(CompileErrorS::OperatorTypeMismatch)
                },
                Err(e2) => Err(e2),
            },
            Err(e2) => Err(e2),
        },
        ExprS::Filter(name, args, input) => match compile_expr(*input, env, sch, fs) {
            Ok(ic) => match filter_find(fs, name) {
                Some(k) => if fs[k].arity != args.len() {
                    Err(
                        CompileErrorS::FilterArityMismatch {
                            name: name,
                            expected: fs[k].arity,
                            found: args.len() as usize,
                        },
                    )
                } else if fs[k].input != ic.1 {
                    Err(
                        CompileErrorS::FilterTypeMismatch {
                            name: name,
                            expected: fs[k].input,
                            found: ic.1,
                        },
                    )
                } else {
                    Ok((ic.0 + seq![InstrS::Call(fs[k].op, args)], fs[k].output))
                },
                None => Err(CompileErrorS::UnknownFilter(name)),
            },
            Err(e2) => Err(e2),
        },
    }
}

/// The instructions the segments from `i` on lower to: literal text becomes
/// an append, an expression becomes its instructions followed by `Emit`.
pub open spec fn compile_segs(
    p: Seq<SegmentS>,
    i: int,
    env: Seq<(Seq<u8>, ValueS)>,
    sch: Seq<(Seq<u8>, Ty)>,
    fs: Seq<FilterS>,
) -> Result<Seq<InstrS>, CompileErrorS>
    decreases p.len() - i,
    when 0 <= i <= p.len()
{
    if i >= p.len() {
        Ok(Seq::empty())
    } else {
        let head: Result<Seq<InstrS>, CompileErrorS> = match p[i] {
            SegmentS::Literal(v) => Ok(seq![InstrS::Append(v)]),
            SegmentS::Expression(e) => match compile_expr(e, env, sch, fs) {
                Ok(c) => Ok(c.0 + seq![InstrS::Emit]),
                Err(e2) => Err(e2),
            },
        };
        match head {
            Ok(h) => match compile_segs(p, i + 1, env, sch, fs) {
                Ok(rest) => Ok(h + rest),
                Err(e2) => Err(e2),
            },
            Err(e2) => Err(e2),
        }
    }
}

/// The instructions a whole program lowers to.
pub open spec fn compile_program(
    p: Seq<SegmentS>,
    env: Seq<(Seq<u8>, ValueS)>,
    sch: Seq<(Seq<u8>, Ty)>,
    fs: Seq<FilterS>,
) -> Result<Seq<InstrS>, CompileErrorS> {
    compile_segs(p, 0, env, sch, fs)
}

/// Compiled, schema-bound bytecode.  `row_tys` records the Row table the
/// instructions were compiled against: a row conforms when it has one value
/// per entry, of that type.
#[derive(Debug)]
pub struct Bytecode {
    pub instrs: Vec<Instr>,
    pub row_tys: Vec<Ty>,
}

/// The mathematical shape of a compiled template.
pub struct BytecodeS {
    pub instrs: Seq<InstrS>,
    pub row_tys: Seq<Ty>,
}

impl DeepView for Bytecode {
    type V = BytecodeS;

    open spec fn deep_view(&self) -> BytecodeS {
        BytecodeS { instrs: self.instrs.deep_view(), row_tys: self.row_tys.deep_view() }
    }
}

/// The top of the value stack; an empty stack reads as `Nan`, which compiled
/// code never reaches.
pub open spec fn vm_top(st: Seq<ValueS>) -> ValueS {
    if st.len() > 0 {
        st.last()
    } else {
        ValueS::Num(Num::Nan)
    }
}

pub open spec fn vm_pop(st: Seq<ValueS>) -> Seq<ValueS> {
    if st.len() > 0 {
        st.drop_last()
    } else {
        st
    }
}

/// What one instruction does to the stack and the output.
pub open spec fn vm_step(ins: InstrS, row: Seq<ValueS>, st: Seq<ValueS>, out: Seq<u8>) -> (
    Seq<ValueS>,
    Seq<u8>,
) {
    match ins {
        InstrS::Append(v) => (st, out + v),
        InstrS::PushNum(n) => (st.push(ValueS::Num(n)), out),
        InstrS::PushStr(s) => (st.push(ValueS::Str(s)), out),
        InstrS::Load(i) => (
            st.push(
                if i < row.len() {
                    row[i as int]
                } else {
                    ValueS::Num(Num::Nan)
                },
            ),
            out,
        ),
        InstrS::Arith(op) => {
            let b = vm_top(st);
            let st1 = vm_pop(st);
            let a = vm_top(st1);
            let st2 = vm_pop(st1);
            (st2.push(ValueS::Num(num_op(op, as_num(a), as_num(b)))), out)
        },
        InstrS::Call(op, args) => {
            let v = vm_top(st);
            let st1 = vm_pop(st);
            (st1.push(spec_apply_filter(op, args, v)), out)
        },
        InstrS::Emit => {
            let v = vm_top(st);
            let st1 = vm_pop(st);
            (st1, out + spec_fmt_value(v))
        },
    }
}

/// What a whole instruction sequence does to the stack and the output.
pub open spec fn vm_run(ins: Seq<InstrS>, row: Seq<ValueS>, st: Seq<ValueS>, out: Seq<u8>) -> (
    Seq<ValueS>,
    Seq<u8>,
)
    decreases ins.len(),
{
    if ins.len() == 0 {
        (st, out)
    } else {
        let m = vm_step(ins[0], row, st, out);
        vm_run(ins.skip(1), row, m.0, m.1)
    }
}

/// The bytes an instruction sequence writes for one row.
pub open spec fn vm_output(ins: Seq<InstrS>, row: Seq<ValueS>) -> Seq<u8> {
    vm_run(ins, row, Seq::empty(), Seq::empty()).1
}

/// Running a concatenation runs the two halves in order.
pub proof fn lemma_vm_run_append(
    a: Seq<InstrS>,
    b: Seq<InstrS>,
    row: Seq<ValueS>,
    st: Seq<ValueS>,
    out: Seq<u8>,
)
    ensures
        vm_run(a + b, row, st, out) == ({
            let m = vm_run(a, row, st, out);
            vm_run(b, row, m.0, m.1)
        }),
    decreases a.len(),
{
    if a.len() == 0 {
        assert(a + b =~= b);
    } else {
        let m = vm_step(a[0], row, st, out);
        lemma_vm_run_append(a.skip(1), b, row, m.0, m.1);
        assert((a + b).skip(1) =~= a.skip(1) + b);
    }
}

/// Output already written is never touched: running with bytes in the output
/// appends exactly what running with an empty output would produce.
pub proof fn lemma_vm_run_shift(ins: Seq<InstrS>, row: Seq<ValueS>, st: Seq<ValueS>, out: Seq<u8>)
    ensures
        vm_run(ins, row, st, out).0 == vm_run(ins, row, st, Seq::empty()).0,
        vm_run(ins, row, st, out).1 == out + vm_run(ins, row, st, Seq::empty()).1,
    decreases ins.len(),
{
    if ins.len() == 0 {
        assert(out + Seq::<u8>::empty() =~= out);
    } else {
        let m = vm_step(ins[0], row, st, out);
        let m0 = vm_step(ins[0], row, st, Seq::empty());
        lemma_vm_run_shift(ins.skip(1), row, m.0, m.1);
        lemma_vm_run_shift(ins.skip(1), row, m0.0, m0.1);
        assert(m.0 == m0.0);
        assert(m.1 =~= out + m0.1);
        assert(out + (m0.1 + vm_run(ins.skip(1), row, m0.0, Seq::empty()).1) =~= (out + m0.1)
            + vm_run(ins.skip(1), row, m0.0, Seq::empty()).1);
    }
}


/// Pops the top of the stack, reading an empty stack as `Nan`.
fn pop_val(stack: &mut Vec<Value>) -> (v: Value)
    ensures
        v.deep_view() == vm_top(old(stack).deep_view()),
        final(stack).deep_view() == vm_pop(old(stack).deep_view()),
{
    match stack.pop() {
        Some(v) => {
            proof {
                assert(stack.deep_view() =~= vm_pop(old(stack).deep_view()));
            }
            v
        },
        None => Value::Num(Num::Nan),
    }
}

fn compile_expr_exec(
    e: &Expr,
    env: &Vec<(Vec<u8>, Value)>,
    sch: &Vec<(Vec<u8>, Ty)>,
    fs: &Vec<Filter>,
    out: &mut Vec<Instr>,
) -> (r: Result<Ty, CompileError>)
    ensures
        r matches Ok(t) ==> compile_expr(
            e.deep_view(),
            env.deep_view(),
            sch.deep_view(),
            fs.deep_view(),
        ) matches Ok(c) && c.1 == t && final(out).deep_view() == old(out).deep_view() + c.0,
        r matches Err(ce) ==> compile_expr(
            e.deep_view(),
            env.deep_view(),
            sch.deep_view(),
            fs.deep_view(),
        ) == Err::<(Seq<InstrS>, Ty), CompileErrorS>(ce.deep_view()),
    decreases *e,
{
    match e {
        Expr::Field(name) => {
            proof {
                assert(name.deep_view() =~= name@);
            }
            match find_env(env, name) {
                Some(v) => match v {
                    Value::Num(n) => {
                        out.push(Instr::PushNum(n));
                        proof {
                            assert(out.deep_view() =~= old(out).deep_view() + seq![
                                InstrS::PushNum(n),
                            ]);
                        }
                        Ok(Ty::Num)
                    },
                    Value::Str(sv) => {
                        let ghost svv = sv.deep_view();
                        out.push(Instr::PushStr(sv));
                        proof {
                            assert(out.deep_view() =~= old(out).deep_view() + seq![
                                InstrS::PushStr(svv),
                            ]);
                        }
                        Ok(Ty::Str)
                    },
                },
                None => match find_slot(sch, name) {
                    Some(st) => {
                        out.push(Instr::Load(st.0));
                        proof {
                            assert(out.deep_view() =~= old(out).deep_view() + seq![
                                InstrS::Load(st.0),
                            ]);
                        }
                        Ok(st.1)
                    },
                    None => {
                        let n = clone_bytes(name);
                        proof {
                            assert(n.deep_view() =~= name.deep_view());
                        }
                        Err(CompileError::UnknownIdentifier(n))
                    },
                },
            }
        },
        Expr::NumLit(n) => {
            out.push(Instr::PushNum(*n));
            proof {
                assert(out.deep_view() =~= old(out).deep_view() + seq![InstrS::PushNum(*n)]);
            }
            Ok(Ty::Num)
        },
        Expr::StrLit(v) => {
            let sv = clone_bytes(v);
            let ghost svv = sv.deep_view();
            proof {
                assert(svv =~= v.deep_view());
            }
            out.push(Instr::PushStr(sv));
            proof {
                assert(out.deep_view() =~= old(out).deep_view() + seq![InstrS::PushStr(svv)]);
            }
            Ok(Ty::Str)
        },
        Expr::Bin(op, l, r) => {
            let lt = match compile_expr_exec(l, env, sch, fs, out) {
                Ok(t) => t,
                Err(ce) => {
                    return Err(ce);
                },
            };
            let ghost mid = out.deep_view();
            let rt = match compile_expr_exec(r, env, sch, fs, out) {
                Ok(t) => t,
                Err(ce) => {
                    return Err(ce);
                },
            };
            if lt == Ty::Num && rt == Ty::Num {
                let ghost pre_push = out.deep_view();
                out.push(Instr::Arith(*op));
                proof {
                    assert(out.deep_view() =~= pre_push.push(InstrS::Arith(*op)));
                    let lc = compile_expr(
                        l.deep_view(),
                        env.deep_view(),
                        sch.deep_view(),
                        fs.deep_view(),
                    )->Ok_0;
                    let rc = compile_expr(
                        r.deep_view(),
                        env.deep_view(),
                        sch.deep_view(),
                        fs.deep_view(),
                    )->Ok_0;
                    assert(out.deep_view() =~= old(out).deep_view() + (lc.0 + rc.0 + seq![
                        InstrS::Arith(*op),
                    ]));
                }
                Ok(Ty::Num)
            } else {
                Err(CompileError::OperatorTypeMismatch)
            }
        },
        Expr::Filter(name, args, input) => {
            let it = match compile_expr_exec(input, env, sch, fs, out) {
                Ok(t) => t,
                Err(ce) => {
                    return Err(ce);
                },
            };
            proof {
                assert(name.deep_view() =~= name@);
            }
            match find_filter(fs, name) {
                Some(k) => {
                    let f = &fs[k];
                    if f.arity != args.len() {
                        let n = clone_bytes(name);
                        proof {
                            assert(n.deep_view() =~= name.deep_view());
                        }
                        Err(
                            CompileError::FilterArityMismatch {
                                name: n,
                                expected: f.arity,
                                found: args.len(),
                            },
                        )
                    } else if f.input != it {
                        let n = clone_bytes(name);
                        proof {
                            assert(n.deep_view() =~= name.deep_view());
                        }
                        Err(
                            CompileError::FilterTypeMismatch {
                                name: n,
                                expected: f.input,
                                found: it,
                            },
                        )
                    } else {
                        let op = f.op;
                        let out_ty = f.output;
                        let mut a: Vec<Num> = Vec::new();
                        let mut t: usize = 0;
                        while t < args.len()
                            invariant
                                t <= args@.len(),
                                a@ =~= args@.take(t as int),
                            decreases args@.len() - t,
                        {
                            a.push(args[t]);
                            t = t + 1;
                            proof {
                                assert(a@ =~= args@.take(t as int));
                            }
                        }
                        proof {
                            assert(a@ =~= args@);
                            assert(a.deep_view() =~= args.deep_view());
                        }
                        let ghost av = a.deep_view();
                        let ghost pre_push = out.deep_view();
                        out.push(Instr::Call(op, a));
                        proof {
                            assert(out.deep_view() =~= pre_push.push(InstrS::Call(op, av)));
                            let ic = compile_expr(
                                input.deep_view(),
                                env.deep_view(),
                                sch.deep_view(),
                                fs.deep_view(),
                            )->Ok_0;
                            assert(out.deep_view() =~= old(out).deep_view() + (ic.0 + seq![
                                InstrS::Call(op, av),
                            ]));
                        }
                        Ok(out_ty)
                    }
                },
                None => {
                    let n = clone_bytes(name);
                    proof {
                        assert(n.deep_view() =~= name.deep_view());
                    }
                    Err(CompileError::UnknownFilter(n))
                },
            }
        },
    }
}

fn compile_segs_exec(
    p: &Vec<Segment>,
    i: usize,
    env: &Vec<(Vec<u8>, Value)>,
    sch: &Vec<(Vec<u8>, Ty)>,
    fs: &Vec<Filter>,
    out: &mut Vec<Instr>,
) -> (r: Result<(), CompileError>)
    requires
        i <= p@.len(),
    ensures
        r matches Ok(_) ==> compile_segs(
            p.deep_view(),
            i as int,
            env.deep_view(),
            sch.deep_view(),
            fs.deep_view(),
        ) matches Ok(ins) && final(out).deep_view() == old(out).deep_view() + ins,
        r matches Err(ce) ==> compile_segs(
            p.deep_view(),
            i as int,
            env.deep_view(),
            sch.deep_view(),
            fs.deep_view(),
        ) == Err::<Seq<InstrS>, CompileErrorS>(ce.deep_view()),
    decreases p@.len() - i,
{
    if i >= p.len() {
        proof {
            assert(out.deep_view() =~= old(out).deep_view() + Seq::<InstrS>::empty());
        }
        return Ok(());
    }
    match &p[i] {
        Segment::Literal(v) => {
            let c = clone_bytes(v);
            let ghost cv = c.deep_view();
            proof {
                assert(cv =~= v.deep_view());
            }
            out.push(Instr::Append(c));
            proof {
                assert(out.deep_view() =~= old(out).deep_view() + seq![InstrS::Append(cv)]);
            }
        },
        Segment::Expression(e) => {
            match compile_expr_exec(e, env, sch, fs, out) {
                Ok(_) => {
                    let ghost pre_push = out.deep_view();
                    out.push(Instr::Emit);
                    proof {
                        assert(out.deep_view() =~= pre_push.push(InstrS::Emit));
                        let c = compile_expr(
                            e.deep_view(),
                            env.deep_view(),
                            sch.deep_view(),
                            fs.deep_view(),
                        )->Ok_0;
                        assert(out.deep_view() =~= old(out).deep_view() + (c.0 + seq![
                            InstrS::Emit,
                        ]));
                    }
                },
                Err(ce) => {
                    return Err(ce);
                },
            }
        },
    }
    let ghost mid = out.deep_view();
    match compile_segs_exec(p, i + 1, env, sch, fs, out) {
        Ok(_) => {
            proof {
                let rest = compile_segs(
                    p.deep_view(),
                    i as int + 1,
                    env.deep_view(),
                    sch.deep_view(),
                    fs.deep_view(),
                )->Ok_0;
                assert(out.deep_view() == mid + rest);
                assert(out.deep_view() =~= old(out).deep_view() + compile_segs(
                    p.deep_view(),
                    i as int,
                    env.deep_view(),
                    sch.deep_view(),
                    fs.deep_view(),
                )->Ok_0);
            }
            Ok(())
        },
        Err(ce) => Err(ce),
    }
}

impl Bytecode {
    /// Lowers a parsed (and usually optimized) program to bytecode, resolving
    /// every identifier against the Schema Binding and every filter call
    /// against the registry.  All checks pass or no bytecode is produced.
    pub fn from_ast(
        p: &Vec<Segment>,
        env: &Vec<(Vec<u8>, Value)>,
        sch: &Vec<(Vec<u8>, Ty)>,
        fs: &Vec<Filter>,
    ) -> (r: Result<Bytecode, CompileError>)
        ensures
            r matches Ok(bc) ==> compile_program(
                p.deep_view(),
                env.deep_view(),
                sch.deep_view(),
                fs.deep_view(),
            ) matches Ok(ins) && bc.deep_view().instrs == ins && bc.deep_view().row_tys
                == sch.deep_view().map_values(|f: (Seq<u8>, Ty)| f.1),
            r matches Err(ce) ==> compile_program(
                p.deep_view(),
                env.deep_view(),
                sch.deep_view(),
                fs.deep_view(),
            ) == Err::<Seq<InstrS>, CompileErrorS>(ce.deep_view()),
    {
        let mut instrs: Vec<Instr> = Vec::new();
        match compile_segs_exec(p, 0, env, sch, fs, &mut instrs) {
            Ok(_) => {
                let mut row_tys: Vec<Ty> = Vec::new();
                let mut i: usize = 0;
                while i < sch.len()
                    invariant
                        i <= sch@.len(),
                        row_tys.deep_view() =~= sch.deep_view().map_values(
                            |f: (Seq<u8>, Ty)| f.1,
                        ).take(i as int),
                    decreases sch@.len() - i,
                {
                    let ghost pre_push = row_tys.deep_view();
                    row_tys.push(sch[i].1);
                    i = i + 1;
                    proof {
                        assert(row_tys.deep_view() =~= pre_push.push(sch@[i - 1].1));
                        assert(sch.deep_view()[i - 1].1 == sch@[i - 1].1);
                        assert(row_tys.deep_view() =~= sch.deep_view().map_values(
                            |f: (Seq<u8>, Ty)| f.1,
                        ).take(i as int));
                    }
                }
                proof {
                    assert(instrs.deep_view() =~= compile_program(
                        p.deep_view(),
                        env.deep_view(),
                        sch.deep_view(),
                        fs.deep_view(),
                    )->Ok_0);
                    assert(row_tys.deep_view() =~= sch.deep_view().map_values(
                        |f: (Seq<u8>, Ty)| f.1,
                    ));
                }
                Ok(Bytecode { instrs, row_tys })
            },
            Err(ce) => Err(ce),
        }
    }

    /// Renders one row: executes the instructions over a value stack,
    /// appending output bytes to `out`.  Rendering is total and leaves the
    /// bytecode untouched; it writes exactly `vm_output` of the instructions.
    pub fn render(&self, row: &Vec<Value>, out: &mut Vec<u8>)
        ensures
            final(out)@ == old(out)@ + vm_output(self.instrs.deep_view(), row.deep_view()),
    {
        let ghost ins = self.instrs.deep_view();
        let ghost rowv = row.deep_view();
        let mut stack: Vec<Value> = Vec::new();
        let mut i: usize = 0;
        proof {
            assert(stack.deep_view() =~= Seq::<ValueS>::empty());
            assert(ins.take(0) =~= Seq::<InstrS>::empty());
        }
        while i < self.instrs.len()
            invariant
                i <= self.instrs@.len(),
                ins == self.instrs.deep_view(),
                rowv == row.deep_view(),
                stack.deep_view() == vm_run(ins.take(i as int), rowv, Seq::empty(), old(out)@).0,
                out@ == vm_run(ins.take(i as int), rowv, Seq::empty(), old(out)@).1,
            decreases self.instrs@.len() - i,
        {
            let ghost st0 = stack.deep_view();
            let ghost out0 = out@;
            proof {
                assert(ins.take(i as int + 1) =~= ins.take(i as int) + seq![ins[i as int]]);
                lemma_vm_run_append(ins.take(i as int), seq![ins[i as int]], rowv, Seq::empty(),
                    old(out)@);
                reveal_with_fuel(vm_run, 2);
                assert(seq![ins[i as int]].skip(1) =~= Seq::<InstrS>::empty());
                assert(vm_run(seq![ins[i as int]], rowv, st0, out0) == vm_step(ins[i as int],
                    rowv, st0, out0));
            }
            match &self.instrs[i] {
                Instr::Append(v) => {
                    let mut c = clone_bytes(v);
                    proof {
                        assert(v.deep_view() =~= v@);
                    }
                    out.append(&mut c);
                },
                Instr::PushNum(n) => {
                    stack.push(Value::Num(*n));
                    proof {
                        assert(stack.deep_view() =~= st0.push(ValueS::Num(*n)));
                    }
                },
                Instr::PushStr(v) => {
                    let c = clone_bytes(v);
                    proof {
                        assert(c.deep_view() =~= v.deep_view());
                    }
                    stack.push(Value::Str(c));
                    proof {
                        assert(stack.deep_view() =~= st0.push(ValueS::Str(v.deep_view())));
                    }
                },
                Instr::Load(ix) => {
                    let v = if *ix < row.len() {
                        clone_value(&row[*ix])
                    } else {
                        Value::Num(Num::Nan)
                    };
                    stack.push(v);
                    proof {
                        assert(stack.deep_view() =~= vm_step(ins[i as int], rowv, st0, out0).0);
                    }
                },
                Instr::Arith(op) => {
                    let b = pop_val(&mut stack);
                    let a = pop_val(&mut stack);
                    let n = num_op_exec(*op, as_num_exec(&a), as_num_exec(&b));
                    stack.push(Value::Num(n));
                    proof {
                        assert(stack.deep_view() =~= vm_step(ins[i as int], rowv, st0, out0).0);
                    }
                },
                Instr::Call(op, args) => {
                    let v = pop_val(&mut stack);
                    let r = apply_filter(*op, args, v);
                    stack.push(r);
                    proof {
                        assert(stack.deep_view() =~= vm_step(ins[i as int], rowv, st0, out0).0);
                    }
                },
                Instr::Emit => {
                    let v = pop_val(&mut stack);
                    fmt_value_push(&v, out);
                },
            }
            i = i + 1;
        }
        proof {
            assert(ins.take(ins.len() as int) =~= ins);
            lemma_vm_run_shift(ins, rowv, Seq::empty(), old(out)@);
        }
    }
}

/// The bytes a batch of rows renders to: each row's output, in row order.
pub open spec fn batch_output(ins: Seq<InstrS>, rows: Seq<Seq<ValueS>>) -> Seq<u8>
    decreases rows.len(),
{
    if rows.len() == 0 {
        Seq::empty()
    } else {
        vm_output(ins, rows[0]) + batch_output(ins, rows.skip(1))
    }
}

impl Bytecode {
    /// Renders a batch of rows in order.  The output is exactly the
    /// concatenation of each row's own render: rendering one row has no
    /// effect on any other.
    pub fn render_all(&self, rows: &Vec<Vec<Value>>, out: &mut Vec<u8>)
        ensures
            final(out)@ == old(out)@ + batch_output(self.instrs.deep_view(), rows.deep_view()),
    {
        let ghost ins = self.instrs.deep_view();
        let ghost rs = rows.deep_view();
        let mut i: usize = 0;
        proof {
            assert(out@ =~= old(out)@ + batch_output(ins, rs.take(0)));
        }
        while i < rows.len()
            invariant
                i <= rows@.len(),
                ins == self.instrs.deep_view(),
                rs == rows.deep_view(),
                out@ == old(out)@ + batch_output(ins, rs.take(i as int)),
            decreases rows@.len() - i,
        {
            self.render(&rows[i], out);
            i = i + 1;
            proof {
                lemma_batch_take(ins, rs, i as int);
                assert(out@ =~= old(out)@ + batch_output(ins, rs.take(i as int)));
            }
        }
        proof {
            assert(rs.take(rs.len() as int) =~= rs);
        }
    }
}

/// A batch prefix extended by one row appends that row's output.
proof fn lemma_batch_take(ins: Seq<InstrS>, rs: Seq<Seq<ValueS>>, i: int)
    requires
        0 < i <= rs.len(),
    ensures
        batch_output(ins, rs.take(i)) == batch_output(ins, rs.take(i - 1)) + vm_output(
            ins,
            rs[i - 1],
        ),
    decreases i,
{
    if i == 1 {
        assert(rs.take(1).skip(1) =~= Seq::<Seq<ValueS>>::empty());
        assert(rs.take(0) =~= Seq::<Seq<ValueS>>::empty());
        assert(batch_output(ins, rs.take(0)) + vm_output(ins, rs[0]) =~= vm_output(ins, rs[0])
            + Seq::<u8>::empty());
    } else {
        lemma_batch_take(ins, rs.skip(1), i - 1);
        assert(rs.take(i).skip(1) =~= rs.skip(1).take(i - 1));
        assert(rs.take(i - 1).skip(1) =~= rs.skip(1).take(i - 2));
        assert(rs.take(i)[0] == rs[0]);
        assert(rs.take(i - 1)[0] == rs[0]);
        assert(rs.skip(1)[i - 2] == rs[i - 1]);
        assert(vm_output(ins, rs[0]) + (batch_output(ins, rs.skip(1).take(i - 2)) + vm_output(
            ins,
            rs[i - 1],
        )) =~= (vm_output(ins, rs[0]) + batch_output(ins, rs.skip(1).take(i - 2))) + vm_output(
            ins,
            rs[i - 1],
        ));
    }
}

} // verus!
