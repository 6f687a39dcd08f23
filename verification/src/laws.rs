//! The library's cross-cutting guarantees, stated and proved once:
//! compiled bytecode computes exactly what the program means, folding is
//! invisible in the output and transparent to every compile-time check, and
//! compilation and rendering are deterministic.

use vstd::prelude::*;

use crate::ast::ExprS;
use crate::ast::SegmentS;
use crate::bytecode::InstrS;
use crate::bytecode::compile_expr;
use crate::bytecode::compile_segs;
use crate::bytecode::compile_program;
use crate::bytecode::vm_run;
use crate::bytecode::vm_output;
use crate::bytecode::vm_step;
use crate::bytecode::lemma_vm_run_append;
use crate::eval::eval_expr;
use crate::eval::render_program;
use crate::filter::FilterS;
use crate::filter::filters_wf;
use crate::filter::filter_wf;
use crate::filter::filter_find;
use crate::filter::lemma_filter_find;
use crate::optimize::env_check;
use crate::optimize::opt_expr;
use crate::optimize::opt_program;
use crate::optimize::opt_seg;
use crate::optimize::lemma_env_check_eval;
use crate::optimize::lemma_opt_preserves_render;
use crate::schema::row_conforms;
use crate::schema::lemma_slot_lookup;
use crate::value::Ty;
use crate::value::ValueS;
use crate::value::ty_of;
use crate::value::spec_fmt_value;

verus! {

proof fn lemma_vm_run_one(i: InstrS, row: Seq<ValueS>, st: Seq<ValueS>, out: Seq<u8>)
    ensures
        vm_run(seq![i], row, st, out) == vm_step(i, row, st, out),
{
    reveal_with_fuel(vm_run, 2);
    assert(seq![i].skip(1) =~= Seq::<InstrS>::empty());
}

/// Compiled code computes the expression it came from: running its
/// instructions pushes exactly the expression's value onto the stack, writes
/// nothing, and the value has the type the compiler assigned.
pub proof fn lemma_compile_expr_correct(
    e: ExprS,
    env: Seq<(Seq<u8>, ValueS)>,
    sch: Seq<(Seq<u8>, Ty)>,
    fs: Seq<FilterS>,
    row: Seq<ValueS>,
    st: Seq<ValueS>,
    out: Seq<u8>,
)
    requires
        filters_wf(fs),
        row_conforms(row, sch),
        sch.len() <= usize::MAX,
        compile_expr(e, env, sch, fs) is Ok,
    ensures
        vm_run(compile_expr(e, env, sch, fs)->Ok_0.0, row, st, out) == (
            st.push(eval_expr(e, env, sch, row, fs)),
            out,
        ),
        ty_of(eval_expr(e, env, sch, row, fs)) == compile_expr(e, env, sch, fs)->Ok_0.1,
    decreases e,
{
    match e {
        ExprS::Field(name) => {
            lemma_slot_lookup(sch, name, 0);
            lemma_vm_run_one(
                compile_expr(e, env, sch, fs)->Ok_0.0[0],
                row,
                st,
                out,
            );
            assert(compile_expr(e, env, sch, fs)->Ok_0.0 =~= seq![
                compile_expr(e, env, sch, fs)->Ok_0.0[0],
            ]);
        },
        ExprS::NumLit(n) => {
            lemma_vm_run_one(InstrS::PushNum(n), row, st, out);
        },
        ExprS::StrLit(v) => {
            lemma_vm_run_one(InstrS::PushStr(v), row, st, out);
        },
        ExprS::Bin(op, l, r) => {
            let lc = compile_expr(*l, env, sch, fs)->Ok_0;
            let rc = compile_expr(*r, env, sch, fs)->Ok_0;
            lemma_compile_expr_correct(*l, env, sch, fs, row, st, out);
            let st1 = st.push(eval_expr(*l, env, sch, row, fs));
            lemma_compile_expr_correct(*r, env, sch, fs, row, st1, out);
            let st2 = st1.push(eval_expr(*r, env, sch, row, fs));
            lemma_vm_run_append(lc.0 + rc.0, seq![InstrS::Arith(op)], row, st, out);
            lemma_vm_run_append(lc.0, rc.0, row, st, out);
            lemma_vm_run_one(InstrS::Arith(op), row, st2, out);
        },
        ExprS::Filter(name, args, input) => {
            lemma_filter_find(fs, name, 0);
            let k = filter_find(fs, name)->Some_0;
            assert(filter_wf(fs[k]));
            let ic = compile_expr(*input, env, sch, fs)->Ok_0;
            lemma_compile_expr_correct(*input, env, sch, fs, row, st, out);
            let st1 = st.push(eval_expr(*input, env, sch, row, fs));
            lemma_vm_run_append(ic.0, seq![InstrS::Call(fs[k].op, args)], row, st, out);
            lemma_vm_run_one(InstrS::Call(fs[k].op, args), row, st1, out);
        },
    }
}

/// Compiled code renders the program it came from: running the instructions
/// of the segments from `i` on leaves the stack unchanged and appends exactly
/// the rendered text of those segments.
pub proof fn lemma_compile_segs_correct(
    p: Seq<SegmentS>,
    i: int,
    env: Seq<(Seq<u8>, ValueS)>,
    sch: Seq<(Seq<u8>, Ty)>,
    fs: Seq<FilterS>,
    row: Seq<ValueS>,
    st: Seq<ValueS>,
    out: Seq<u8>,
)
    requires
        filters_wf(fs),
        row_conforms(row, sch),
        sch.len() <= usize::MAX,
        0 <= i <= p.len(),
        compile_segs(p, i, env, sch, fs) is Ok,
    ensures
        vm_run(compile_segs(p, i, env, sch, fs)->Ok_0, row, st, out) == (
            st,
            out + render_program(p.skip(i), env, sch, row, fs),
        ),
    decreases p.len() - i,
{
    let whole = compile_segs(p, i, env, sch, fs)->Ok_0;
    if i >= p.len() {
        assert(p.skip(i) =~= Seq::<SegmentS>::empty());
        assert(whole =~= Seq::<InstrS>::empty());
        assert(vm_run(whole, row, st, out) == (st, out));
        assert(out + render_program(p.skip(i), env, sch, row, fs) =~= out);
    } else {
        let rest = compile_segs(p, i + 1, env, sch, fs)->Ok_0;
        assert(p.skip(i)[0] == p[i]);
        assert(p.skip(i).skip(1) =~= p.skip(i + 1));
        let tail_text = render_program(p.skip(i + 1), env, sch, row, fs);
        match p[i] {
            SegmentS::Literal(v) => {
                assert(whole == seq![InstrS::Append(v)] + rest);
                lemma_vm_run_append(seq![InstrS::Append(v)], rest, row, st, out);
                lemma_vm_run_one(InstrS::Append(v), row, st, out);
                lemma_compile_segs_correct(p, i + 1, env, sch, fs, row, st, out + v);
                assert(render_program(p.skip(i), env, sch, row, fs) == v + tail_text);
                assert((out + v) + tail_text =~= out + (v + tail_text));
                assert(vm_run(whole, row, st, out) == (st, out + render_program(
                    p.skip(i),
                    env,
                    sch,
                    row,
                    fs,
                )));
            },
            SegmentS::Expression(e) => {
                let c = compile_expr(e, env, sch, fs)->Ok_0;
                let val = eval_expr(e, env, sch, row, fs);
                let head = c.0 + seq![InstrS::Emit];
                assert(whole == head + rest);
                lemma_vm_run_append(head, rest, row, st, out);
                lemma_vm_run_append(c.0, seq![InstrS::Emit], row, st, out);
                lemma_compile_expr_correct(e, env, sch, fs, row, st, out);
                lemma_vm_run_one(InstrS::Emit, row, st.push(val), out);
                assert(vm_run(head, row, st, out) == (st, out + spec_fmt_value(val)));
                lemma_compile_segs_correct(
                    p,
                    i + 1,
                    env,
                    sch,
                    fs,
                    row,
                    st,
                    out + spec_fmt_value(val),
                );
                assert(render_program(p.skip(i), env, sch, row, fs) == spec_fmt_value(val)
                    + tail_text);
                assert((out + spec_fmt_value(val)) + tail_text =~= out + (spec_fmt_value(val)
                    + tail_text));
                assert(vm_run(whole, row, st, out) == (st, out + render_program(
                    p.skip(i),
                    env,
                    sch,
                    row,
                    fs,
                )));
            },
        }
    }
}

/// An environment-scoped, well-typed expression passes every compile check,
/// with the checked type.
pub proof fn lemma_env_check_compiles(
    e: ExprS,
    env: Seq<(Seq<u8>, ValueS)>,
    sch: Seq<(Seq<u8>, Ty)>,
    fs: Seq<FilterS>,
)
    requires
        filters_wf(fs),
        env_check(e, env, fs) is Some,
    ensures
        compile_expr(e, env, sch, fs) is Ok,
        compile_expr(e, env, sch, fs)->Ok_0.1 == env_check(e, env, fs)->Some_0,
    decreases e,
{
    match e {
        ExprS::Bin(op, l, r) => {
            lemma_env_check_compiles(*l, env, sch, fs);
            lemma_env_check_compiles(*r, env, sch, fs);
        },
        ExprS::Filter(name, args, input) => {
            lemma_env_check_compiles(*input, env, sch, fs);
        },
        _ => {},
    }
}

/// Folding is transparent to the compiler: the folded expression compiles
/// exactly when the original does, to the same type, and a failing compile
/// reports the same error.
pub proof fn lemma_opt_compile_same(
    e: ExprS,
    env: Seq<(Seq<u8>, ValueS)>,
    sch: Seq<(Seq<u8>, Ty)>,
    fs: Seq<FilterS>,
)
    requires
        filters_wf(fs),
    ensures
        compile_expr(opt_expr(e, env, fs), env, sch, fs) is Ok <==> compile_expr(
            e,
            env,
            sch,
            fs,
        ) is Ok,
        compile_expr(e, env, sch, fs) is Err ==> compile_expr(opt_expr(e, env, fs), env, sch, fs)
            == compile_expr(e, env, sch, fs),
        compile_expr(e, env, sch, fs) is Ok ==> compile_expr(
            opt_expr(e, env, fs),
            env,
            sch,
            fs,
        )->Ok_0.1 == compile_expr(e, env, sch, fs)->Ok_0.1,
    decreases e,
{
    if env_check(e, env, fs) is Some {
        lemma_env_check_compiles(e, env, sch, fs);
        lemma_env_check_eval(e, env, sch, Seq::empty(), fs);
    } else {
        match e {
            ExprS::Bin(op, l, r) => {
                lemma_opt_compile_same(*l, env, sch, fs);
                lemma_opt_compile_same(*r, env, sch, fs);
            },
            ExprS::Filter(name, args, input) => {
                lemma_opt_compile_same(*input, env, sch, fs);
            },
            _ => {},
        }
    }
}

/// Folding is transparent to compilation of a whole program.
pub proof fn lemma_opt_compile_same_segs(
    p: Seq<SegmentS>,
    i: int,
    env: Seq<(Seq<u8>, ValueS)>,
    sch: Seq<(Seq<u8>, Ty)>,
    fs: Seq<FilterS>,
)
    requires
        filters_wf(fs),
        0 <= i <= p.len(),
    ensures
        compile_segs(opt_program(p, env, fs), i, env, sch, fs) is Ok <==> compile_segs(
            p,
            i,
            env,
            sch,
            fs,
        ) is Ok,
        compile_segs(p, i, env, sch, fs) is Err ==> compile_segs(
            opt_program(p, env, fs),
            i,
            env,
            sch,
            fs,
        )->Err_0 == compile_segs(p, i, env, sch, fs)->Err_0,
    decreases p.len() - i,
{
    let q = opt_program(p, env, fs);
    assert(q.len() == p.len());
    if i < p.len() {
        assert(q[i] == opt_seg(p[i], env, fs));
        match p[i] {
            SegmentS::Literal(_) => {},
            SegmentS::Expression(e) => {
                lemma_opt_compile_same(e, env, sch, fs);
            },
        }
        lemma_opt_compile_same_segs(p, i + 1, env, sch, fs);
    }
}

/// Fail-fast and folding correctness, end to end: the optimizer neither
/// hides nor introduces a compile error, a failing compile reports the same
/// error with or without it, and when compilation succeeds the optimized
/// bytecode writes, for every conforming row, exactly the bytes the original
/// program renders to.
pub proof fn lemma_optimizer_transparent(
    p: Seq<SegmentS>,
    env: Seq<(Seq<u8>, ValueS)>,
    sch: Seq<(Seq<u8>, Ty)>,
    fs: Seq<FilterS>,
    row: Seq<ValueS>,
)
    requires
        filters_wf(fs),
        row_conforms(row, sch),
        sch.len() <= usize::MAX,
    ensures
        compile_program(opt_program(p, env, fs), env, sch, fs) is Ok <==> compile_program(
            p,
            env,
            sch,
            fs,
        ) is Ok,
        compile_program(p, env, sch, fs) is Err ==> compile_program(
            opt_program(p, env, fs),
            env,
            sch,
            fs,
        )->Err_0 == compile_program(p, env, sch, fs)->Err_0,
        compile_program(p, env, sch, fs) is Ok ==> vm_output(
            compile_program(opt_program(p, env, fs), env, sch, fs)->Ok_0,
            row,
        ) == render_program(p, env, sch, row, fs) && vm_output(
            compile_program(p, env, sch, fs)->Ok_0,
            row,
        ) == render_program(p, env, sch, row, fs),
{
    lemma_opt_compile_same_segs(p, 0, env, sch, fs);
    if compile_program(p, env, sch, fs) is Ok {
        let q = opt_program(p, env, fs);
        lemma_compile_segs_correct(p, 0, env, sch, fs, row, Seq::empty(), Seq::empty());
        lemma_compile_segs_correct(q, 0, env, sch, fs, row, Seq::empty(), Seq::empty());
        lemma_opt_preserves_render(p, env, sch, row, fs);
        assert(p.skip(0) =~= p);
        assert(q.skip(0) =~= q);
        assert(Seq::<u8>::empty() + render_program(p, env, sch, row, fs) =~= render_program(
            p,
            env,
            sch,
            row,
            fs,
        ));
        assert(Seq::<u8>::empty() + render_program(q, env, sch, row, fs) =~= render_program(
            q,
            env,
            sch,
            row,
            fs,
        ));
    }
}

} // verus!
