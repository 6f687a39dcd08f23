//! The meaning of expressions and programs: what rendering computes.
//!
//! Evaluation is total: an identifier or filter that compilation would reject
//! reads as `Nan`, so these functions define a value for every tree.  The
//! compiler's checks guarantee that compiled templates never reach those
//! fallbacks.

use vstd::prelude::*;

use crate::ast::BinOp;
use crate::ast::ExprS;
use crate::ast::SegmentS;
use crate::filter::FilterS;
use crate::filter::filter_find;
use crate::filter::spec_apply_filter;
use crate::num::Num;
use crate::num::spec_add;
use crate::num::spec_sub;
use crate::num::spec_mul;
use crate::num::spec_div;
use crate::schema::env_lookup;
use crate::schema::slot_lookup;
use crate::value::Ty;
use crate::value::ValueS;
use crate::value::as_num;
use crate::value::spec_fmt_value;

verus! {

/// The arithmetic operation an operator denotes.
pub open spec fn num_op(op: BinOp, a: Num, b: Num) -> Num {
    match op {
        BinOp::Add => spec_add(a, b),
        BinOp::Sub => spec_sub(a, b),
        BinOp::Mul => spec_mul(a, b),
        BinOp::Div => spec_div(a, b),
    }
}

pub fn num_op_exec(op: BinOp, a: Num, b: Num) -> (r: Num)
    ensures
        r == num_op(op, a, b),
{
    match op {
        BinOp::Add => a.add(b),
        BinOp::Sub => a.sub(b),
        BinOp::Mul => a.mul(b),
        BinOp::Div => a.div(b),
    }
}

/// The value of an expression against Environment values and one row.
/// Identifiers resolve to the Environment first, then to the Row table.
pub open spec fn eval_expr(
    e: ExprS,
    env: Seq<(Seq<u8>, ValueS)>,
    sch: Seq<(Seq<u8>, Ty)>,
    row: Seq<ValueS>,
    fs: Seq<FilterS>,
) -> ValueS
    decreases e,
{
    match e {
        ExprS::Field(name) => match env_lookup(env, name) {
            Some(v) => v,
            None => match slot_lookup(sch, name) {
                Some(st) => if 0 <= st.0 < row.len() {
                    row[st.0]
                } else {
                    ValueS::Num(Num::Nan)
                },
                None => ValueS::Num(Num::Nan),
            },
        },
        ExprS::NumLit(n) => ValueS::Num(n),
        ExprS::StrLit(v) => ValueS::Str(v),
        ExprS::Bin(op, l, r) => ValueS::Num(
            num_op(
                op,
                as_num(eval_expr(*l, env, sch, row, fs)),
                as_num(eval_expr(*r, env, sch, row, fs)),
            ),
        ),
        ExprS::Filter(name, args, input) => match filter_find(fs, name) {
            Some(k) => spec_apply_filter(fs[k].op, args, eval_expr(*input, env, sch, row, fs)),
            None => ValueS::Num(Num::Nan),
        },
    }
}

/// The rendered text of a program against one row: the concatenation of its
/// segments, literals byte for byte and expressions formatted.
pub open spec fn render_program(
    p: Seq<SegmentS>,
    env: Seq<(Seq<u8>, ValueS)>,
    sch: Seq<(Seq<u8>, Ty)>,
    row: Seq<ValueS>,
    fs: Seq<FilterS>,
) -> Seq<u8>
    decreases p.len(),
{
    if p.len() == 0 {
        Seq::empty()
    } else {
        (match p[0] {
            SegmentS::Literal(v) => v,
            SegmentS::Expression(e) => spec_fmt_value(eval_expr(e, env, sch, row, fs)),
        }) + render_program(p.skip(1), env, sch, row, fs)
    }
}

} // verus!
