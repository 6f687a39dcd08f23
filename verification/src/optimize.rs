//! Constant folding of environment-scoped subexpressions.
//!
//! A subtree that reads only Environment fields and literals, and whose
//! filter calls pass every compile-time check, is evaluated once against the
//! Environment values and replaced by the literal it produces.  Row-scoped
//! subtrees, and subtrees that compilation would reject, are left in place so
//! that folding never hides a compile error and never changes what rendering
//! produces.

use vstd::prelude::*;

use crate::ast::Expr;
use crate::ast::ExprS;
use crate::ast::Segment;
use crate::ast::SegmentS;
use crate::eval::eval_expr;
use crate::eval::num_op;
use crate::eval::num_op_exec;
use crate::eval::render_program;
use crate::filter::Filter;
use crate::filter::FilterS;
use crate::filter::filter_find;
use crate::filter::filters_wf;
use crate::filter::filter_wf;
use crate::filter::find_filter;
use crate::filter::apply_filter;
use crate::filter::as_num_exec;
use crate::filter::spec_apply_filter;
use crate::filter::lemma_filter_find;
use crate::num::Num;
use crate::schema::env_lookup;
use crate::schema::find_env;
use crate::value::Ty;
use crate::value::Value;
use crate::value::ValueS;
use crate::value::as_num;
use crate::value::ty_of;
use crate::value::clone_bytes;

verus! {

/// The type of an expression that reads only Environment fields and literals
/// and passes every filter check; `None` for anything row-scoped or invalid.
pub open spec fn env_check(e: ExprS, env: Seq<(Seq<u8>, ValueS)>, fs: Seq<FilterS>) -> Option<Ty>
    decreases e,
{
    match e {
        ExprS::Field(name) => match env_lookup(env, name) {
            Some(v) => Some(ty_of(v)),
            None => None,
        },
        ExprS::NumLit(_) => Some(Ty::Num),
        ExprS::StrLit(_) => Some(Ty::Str),
        ExprS::Bin(_, l, r) => if env_check(*l, env, fs) == Some(Ty::Num) && env_check(*r, env, fs)
            == Some(Ty::Num) {
            Some(Ty::Num)
        } else {
            None
        },
        ExprS::Filter(name, args, input) => match env_check(*input, env, fs) {
            Some(ity) => match filter_find(fs, name) {
                Some(k) => if fs[k].arity == args.len() && fs[k].input == ity {
                    Some(fs[k].output)
                } else {
                    None
                },
                None => None,
            },
            None => None,
        },
    }
}

/// Evaluation against the Environment alone; row fields read as `Nan`, but
/// folding only ever evaluates subtrees that `env_check` accepts.
pub open spec fn eval_env(e: ExprS, env: Seq<(Seq<u8>, ValueS)>, fs: Seq<FilterS>) -> ValueS
    decreases e,
{
    match e {
        ExprS::Field(name) => match env_lookup(env, name) {
            Some(v) => v,
            None => ValueS::Num(Num::Nan),
        },
        ExprS::NumLit(n) => ValueS::Num(n),
        ExprS::StrLit(v) => ValueS::Str(v),
        ExprS::Bin(op, l, r) => ValueS::Num(
            num_op(op, as_num(eval_env(*l, env, fs)), as_num(eval_env(*r, env, fs))),
        ),
        ExprS::Filter(name, args, input) => match filter_find(fs, name) {
            Some(k) => spec_apply_filter(fs[k].op, args, eval_env(*input, env, fs)),
            None => ValueS::Num(Num::Nan),
        },
    }
}

pub open spec fn as_str(v: ValueS) -> Seq<u8> {
    match v {
        ValueS::Str(s) => s,
        ValueS::Num(_) => Seq::empty(),
    }
}

/// The folded form of an expression: an environment-scoped, well-typed
/// subtree becomes the literal it evaluates to; anything else keeps its shape
/// with folded children.
pub open spec fn opt_expr(e: ExprS, env: Seq<(Seq<u8>, ValueS)>, fs: Seq<FilterS>) -> ExprS
    decreases e,
{
    match env_check(e, env, fs) {
        Some(t) => if t == Ty::Num {
            ExprS::NumLit(as_num(eval_env(e, env, fs)))
        } else {
            ExprS::StrLit(as_str(eval_env(e, env, fs)))
        },
        None => match e {
            ExprS::Bin(op, l, r) => ExprS::Bin(
                op,
                Box::new(opt_expr(*l, env, fs)),
                Box::new(opt_expr(*r, env, fs)),
            ),
            ExprS::Filter(name, args, input) => ExprS::Filter(
                name,
                args,
                Box::new(opt_expr(*input, env, fs)),
            ),
            _ => e,
        },
    }
}

pub open spec fn opt_seg(seg: SegmentS, env: Seq<(Seq<u8>, ValueS)>, fs: Seq<FilterS>) -> SegmentS {
    match seg {
        SegmentS::Literal(v) => SegmentS::Literal(v),
        SegmentS::Expression(e) => SegmentS::Expression(opt_expr(e, env, fs)),
    }
}

/// The folded form of a whole program.
pub open spec fn opt_program(
    p: Seq<SegmentS>,
    env: Seq<(Seq<u8>, ValueS)>,
    fs: Seq<FilterS>,
) -> Seq<SegmentS> {
    p.map_values(|seg: SegmentS| opt_seg(seg, env, fs))
}

/// An environment-scoped, well-typed expression evaluates against the
/// Environment alone to the same value it has against any schema and row,
/// and that value has the checked type.
pub proof fn lemma_env_check_eval(
    e: ExprS,
    env: Seq<(Seq<u8>, ValueS)>,
    sch: Seq<(Seq<u8>, Ty)>,
    row: Seq<ValueS>,
    fs: Seq<FilterS>,
)
    requires
        filters_wf(fs),
        env_check(e, env, fs) is Some,
    ensures
        eval_env(e, env, fs) == eval_expr(e, env, sch, row, fs),
        Some(ty_of(eval_env(e, env, fs))) == env_check(e, env, fs),
    decreases e,
{
    match e {
        ExprS::Field(name) => {},
        ExprS::NumLit(_) => {},
        ExprS::StrLit(_) => {},
        ExprS::Bin(op, l, r) => {
            lemma_env_check_eval(*l, env, sch, row, fs);
            lemma_env_check_eval(*r, env, sch, row, fs);
        },
        ExprS::Filter(name, args, input) => {
            lemma_env_check_eval(*input, env, sch, row, fs);
            lemma_filter_find(fs, name, 0);
            let k = filter_find(fs, name).unwrap();
            assert(filter_wf(fs[k]));
        },
    }
}

/// Folding correctness for one expression: the folded tree evaluates to the
/// same value as the original, against any schema and row.
pub proof fn lemma_opt_preserves_eval(
    e: ExprS,
    env: Seq<(Seq<u8>, ValueS)>,
    sch: Seq<(Seq<u8>, Ty)>,
    row: Seq<ValueS>,
    fs: Seq<FilterS>,
)
    requires
        filters_wf(fs),
    ensures
        eval_expr(opt_expr(e, env, fs), env, sch, row, fs) == eval_expr(e, env, sch, row, fs),
    decreases e,
{
    if env_check(e, env, fs) is Some {
        lemma_env_check_eval(e, env, sch, row, fs);
    } else {
        match e {
            ExprS::Bin(op, l, r) => {
                lemma_opt_preserves_eval(*l, env, sch, row, fs);
                lemma_opt_preserves_eval(*r, env, sch, row, fs);
            },
            ExprS::Filter(name, args, input) => {
                lemma_opt_preserves_eval(*input, env, sch, row, fs);
            },
            _ => {},
        }
    }
}

/// Folding correctness for a whole program: rendering the folded program
/// produces the same bytes as rendering the original, for every row.
pub proof fn lemma_opt_preserves_render(
    p: Seq<SegmentS>,
    env: Seq<(Seq<u8>, ValueS)>,
    sch: Seq<(Seq<u8>, Ty)>,
    row: Seq<ValueS>,
    fs: Seq<FilterS>,
)
    requires
        filters_wf(fs),
    ensures
        render_program(opt_program(p, env, fs), env, sch, row, fs) == render_program(
            p,
            env,
            sch,
            row,
            fs,
        ),
    decreases p.len(),
{
    if p.len() > 0 {
        match p[0] {
            SegmentS::Literal(_) => {},
            SegmentS::Expression(e) => {
                lemma_opt_preserves_eval(e, env, sch, row, fs);
            },
        }
        lemma_opt_preserves_render(p.skip(1), env, sch, row, fs);
        assert(opt_program(p, env, fs).skip(1) =~= opt_program(p.skip(1), env, fs));
        assert(opt_program(p, env, fs)[0] == opt_seg(p[0], env, fs));
    }
}

fn ty_of_exec(v: &Value) -> (t: Ty)
    ensures
        t == ty_of(v.deep_view()),
{
    match v {
        Value::Num(_) => Ty::Num,
        Value::Str(_) => Ty::Str,
    }
}

fn env_check_exec(e: &Expr, env: &Vec<(Vec<u8>, Value)>, fs: &Vec<Filter>) -> (r: Option<Ty>)
    ensures
        r == env_check(e.deep_view(), env.deep_view(), fs.deep_view()),
    decreases *e,
{
    match e {
        Expr::Field(name) => {
            proof {
                assert(name.deep_view() =~= name@);
            }
            match find_env(env, name) {
                Some(v) => Some(ty_of_exec(&v)),
                None => None,
            }
        },
        Expr::NumLit(_) => Some(Ty::Num),
        Expr::StrLit(_) => Some(Ty::Str),
        Expr::Bin(_, l, r) => {
            let lt = env_check_exec(l, env, fs);
            let rt = env_check_exec(r, env, fs);
            let l_num = match lt {
                Some(Ty::Num) => true,
                _ => false,
            };
            let r_num = match rt {
                Some(Ty::Num) => true,
                _ => false,
            };
            if l_num && r_num {
                Some(Ty::Num)
            } else {
                None
            }
        },
        Expr::Filter(name, args, input) => match env_check_exec(input, env, fs) {
            Some(ity) => match ({
                proof {
                    assert(name.deep_view() =~= name@);
                }
                find_filter(fs, name)
            }) {
                Some(k) => {
                    let f = &fs[k];
                    if f.arity == args.len() && f.input == ity {
                        Some(f.output)
                    } else {
                        None
                    }
                },
                None => None,
            },
            None => None,
        },
    }
}

fn eval_env_exec(e: &Expr, env: &Vec<(Vec<u8>, Value)>, fs: &Vec<Filter>) -> (r: Value)
    ensures
        r.deep_view() == eval_env(e.deep_view(), env.deep_view(), fs.deep_view()),
    decreases *e,
{
    match e {
        Expr::Field(name) => {
            proof {
                assert(name.deep_view() =~= name@);
            }
            match find_env(env, name) {
                Some(v) => v,
                None => Value::Num(Num::Nan),
            }
        },
        Expr::NumLit(n) => Value::Num(*n),
        Expr::StrLit(v) => {
            let c = clone_bytes(v);
            proof {
                assert(c.deep_view() =~= v.deep_view());
            }
            Value::Str(c)
        },
        Expr::Bin(op, l, r) => {
            let a = eval_env_exec(l, env, fs);
            let b = eval_env_exec(r, env, fs);
            Value::Num(num_op_exec(*op, as_num_exec(&a), as_num_exec(&b)))
        },
        Expr::Filter(name, args, input) => {
            proof {
                assert(name.deep_view() =~= name@);
                assert(args.deep_view() =~= args@);
            }
            match find_filter(fs, name) {
                Some(k) => {
                    let v = eval_env_exec(input, env, fs);
                    let op = fs[k].op;
                    apply_filter(op, args, v)
                },
                None => Value::Num(Num::Nan),
            }
        },
    }
}

fn opt_expr_exec(e: Expr, env: &Vec<(Vec<u8>, Value)>, fs: &Vec<Filter>) -> (r: Expr)
    ensures
        r.deep_view() == opt_expr(e.deep_view(), env.deep_view(), fs.deep_view()),
    decreases e,
{
    let ck = env_check_exec(&e, env, fs);
    match ck {
        Some(Ty::Num) => {
            let v = eval_env_exec(&e, env, fs);
            Expr::NumLit(as_num_exec(&v))
        },
        Some(Ty::Str) => {
            let v = eval_env_exec(&e, env, fs);
            match v {
                Value::Str(s) => {
                    proof {
                        assert(s.deep_view() =~= s@);
                    }
                    Expr::StrLit(s)
                },
                Value::Num(_) => {
                    let empty: Vec<u8> = Vec::new();
                    proof {
                        assert(empty.deep_view() =~= Seq::<u8>::empty());
                    }
                    Expr::StrLit(empty)
                },
            }
        },
        None => match e {
            Expr::Bin(op, l, r) => Expr::Bin(
                op,
                Box::new(opt_expr_exec(*l, env, fs)),
                Box::new(opt_expr_exec(*r, env, fs)),
            ),
            Expr::Filter(name, args, input) => Expr::Filter(
                name,
                args,
                Box::new(opt_expr_exec(*input, env, fs)),
            ),
            other => other,
        },
    }
}

/// Folds every environment-scoped expression of a program to the literal it
/// evaluates to against the given Environment values.
pub fn optimize(p: Vec<Segment>, env: &Vec<(Vec<u8>, Value)>, fs: &Vec<Filter>) -> (r: Vec<
    Segment,
>)
    ensures
        r.deep_view() == opt_program(p.deep_view(), env.deep_view(), fs.deep_view()),
{
    let ghost orig = p.deep_view();
    let mut p = p;
    let mut out: Vec<Segment> = Vec::new();
    while p.len() > 0
        invariant
            out.deep_view() =~= opt_program(orig, env.deep_view(), fs.deep_view()).take(
                out.deep_view().len() as int,
            ),
            out.deep_view().len() + p.deep_view().len() == orig.len(),
            p.deep_view() =~= orig.skip(out.deep_view().len() as int),
        decreases p.len(),
    {
        let ghost done = out.deep_view().len() as int;
        let ghost pv = p.deep_view();
        let seg = p.remove(0);
        proof {
            assert(seg.deep_view() == pv[0]);
            assert(pv[0] == orig.skip(done)[0]);
            assert(seg.deep_view() == orig[done]);
            assert(p.deep_view() =~= pv.skip(1));
            assert(p.deep_view() =~= orig.skip(done + 1));
        }
        match seg {
            Segment::Literal(v) => {
                out.push(Segment::Literal(v));
            },
            Segment::Expression(e) => {
                let oe = opt_expr_exec(e, env, fs);
                out.push(Segment::Expression(oe));
            },
        }
        proof {
            assert(out.deep_view() =~= opt_program(orig, env.deep_view(), fs.deep_view()).take(
                done + 1,
            ));
        }
    }
    proof {
        assert(out.deep_view() =~= opt_program(orig, env.deep_view(), fs.deep_view()));
    }
    out
}

} // verus!
