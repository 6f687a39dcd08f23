//! The filter registry: named, typed pipeline stages.
//!
//! A filter declares its name, how many numeric arguments it takes, and its
//! input and output domains; the registry is built once, before compilation,
//! and is read-only afterwards.  The operations themselves are the built-in
//! ones: `sqrt` and `round` on numbers, `toupper` on strings.

use vstd::prelude::*;

use crate::num::Num;
use crate::num::spec_sqrt;
use crate::num::spec_round;
use crate::value::Ty;
use crate::value::Value;
use crate::value::ValueS;
use crate::value::as_num;
use crate::value::upper_bytes;
use crate::value::to_upper;

verus! {

/// A built-in filter operation.
#[derive(Clone, Copy, PartialEq, Eq, Structural, Debug)]
pub enum FilterOp {
    Sqrt,
    Round,
    ToUpper,
}

impl DeepView for FilterOp {
    type V = FilterOp;

    open spec fn deep_view(&self) -> FilterOp {
        *self
    }
}

/// A filter declaration: its name, declared argument count, input and output
/// domains, and the operation it runs.
#[derive(Clone, Debug)]
pub struct Filter {
    pub name: Vec<u8>,
    pub arity: usize,
    pub input: Ty,
    pub output: Ty,
    pub op: FilterOp,
}

/// The mathematical shape of a filter declaration.
pub struct FilterS {
    pub name: Seq<u8>,
    pub arity: usize,
    pub input: Ty,
    pub output: Ty,
    pub op: FilterOp,
}

impl DeepView for Filter {
    type V = FilterS;

    open spec fn deep_view(&self) -> FilterS {
        FilterS {
            name: self.name.deep_view(),
            arity: self.arity,
            input: self.input,
            output: self.output,
            op: self.op,
        }
    }
}

pub open spec fn op_arity(op: FilterOp) -> usize {
    match op {
        FilterOp::Sqrt => 0,
        FilterOp::Round => 1,
        FilterOp::ToUpper => 0,
    }
}

pub open spec fn op_input(op: FilterOp) -> Ty {
    match op {
        FilterOp::Sqrt => Ty::Num,
        FilterOp::Round => Ty::Num,
        FilterOp::ToUpper => Ty::Str,
    }
}

pub open spec fn op_output(op: FilterOp) -> Ty {
    match op {
        FilterOp::Sqrt => Ty::Num,
        FilterOp::Round => Ty::Num,
        FilterOp::ToUpper => Ty::Str,
    }
}

/// A declaration is consistent when it declares exactly the signature of the
/// operation it runs.
pub open spec fn filter_wf(f: FilterS) -> bool {
    f.arity == op_arity(f.op) && f.input == op_input(f.op) && f.output == op_output(f.op)
}

/// A registry is consistent when every declaration in it is.
pub open spec fn filters_wf(fs: Seq<FilterS>) -> bool {
    forall|i: int| 0 <= i < fs.len() ==> filter_wf(#[trigger] fs[i])
}

/// The index of the first filter of the given name, searched from `i`.
pub open spec fn filter_find_from(fs: Seq<FilterS>, name: Seq<u8>, i: int) -> Option<int>
    decreases fs.len() - i,
    when 0 <= i <= fs.len()
{
    if i >= fs.len() {
        None
    } else if fs[i].name == name {
        Some(i)
    } else {
        filter_find_from(fs, name, i + 1)
    }
}

/// The index of the first filter of the given name.
pub open spec fn filter_find(fs: Seq<FilterS>, name: Seq<u8>) -> Option<int> {
    filter_find_from(fs, name, 0)
}

pub proof fn lemma_filter_find(fs: Seq<FilterS>, name: Seq<u8>, i: int)
    requires
        0 <= i <= fs.len(),
    ensures
        filter_find_from(fs, name, i) matches Some(k) ==> i <= k < fs.len() && fs[k].name == name,
    decreases fs.len() - i,
{
    if i < fs.len() && fs[i].name != name {
        lemma_filter_find(fs, name, i + 1);
    }
}

/// What a filter operation does to a value.  An input of the wrong domain is
/// read defensively (a string fed to a numeric filter becomes `Nan`, a number
/// fed to `toupper` passes through); compilation rules such inputs out.
pub open spec fn spec_apply_filter(op: FilterOp, args: Seq<Num>, v: ValueS) -> ValueS {
    match op {
        FilterOp::Sqrt => ValueS::Num(spec_sqrt(as_num(v))),
        FilterOp::Round => ValueS::Num(
            spec_round(
                as_num(v),
                if args.len() > 0 {
                    args[0]
                } else {
                    Num::Fin(0)
                },
            ),
        ),
        FilterOp::ToUpper => match v {
            ValueS::Str(s) => ValueS::Str(upper_bytes(s)),
            ValueS::Num(n) => ValueS::Num(n),
        },
    }
}

pub fn as_num_exec(v: &Value) -> (n: Num)
    ensures
        n == as_num(v.deep_view()),
{
    match v {
        Value::Num(n) => *n,
        Value::Str(_) => Num::Nan,
    }
}

/// Runs a filter operation on a value with its pre-resolved arguments.
pub fn apply_filter(op: FilterOp, args: &Vec<Num>, v: Value) -> (r: Value)
    ensures
        r.deep_view() == spec_apply_filter(op, args.deep_view(), v.deep_view()),
{
    match op {
        FilterOp::Sqrt => {
            let n = as_num_exec(&v);
            Value::Num(n.sqrt())
        },
        FilterOp::Round => {
            let d = if args.len() > 0 {
                args[0]
            } else {
                Num::Fin(0)
            };
            let n = as_num_exec(&v);
            Value::Num(n.round_at(d))
        },
        FilterOp::ToUpper => match v {
            Value::Str(s) => {
                proof {
                    assert(s.deep_view() =~= s@);
                }
                let u = to_upper(&s);
                proof {
                    assert(u.deep_view() =~= u@);
                }
                Value::Str(u)
            },
            Value::Num(n) => Value::Num(n),
        },
    }
}

/// Looks a filter up by name, returning its index in the registry.
pub fn find_filter(fs: &Vec<Filter>, name: &Vec<u8>) -> (r: Option<usize>)
    ensures
        r matches Some(k) ==> filter_find(fs.deep_view(), name@) == Some(k as int) && k
            < fs@.len(),
        r is None ==> filter_find(fs.deep_view(), name@) is None,
{
    let mut i: usize = 0;
    while i < fs.len()
        invariant
            i <= fs@.len(),
            filter_find(fs.deep_view(), name@) == filter_find_from(fs.deep_view(), name@, i as int),
        decreases fs@.len() - i,
    {
        proof {
            assert(fs.deep_view()[i as int].name =~= fs@[i as int].name@);
        }
        if crate::value::bytes_eq(&fs[i].name, name) {
            return Some(i);
        }
        i = i + 1;
    }
    None
}

/// The registry the original application declares: `sqrt/0` on numbers,
/// `round/1` on numbers, `toupper/0` on strings.
pub fn default_filters() -> (r: Vec<Filter>)
    ensures
        filters_wf(r.deep_view()),
        r.deep_view().len() == 3,
        r.deep_view()[0].name == seq![115u8, 113u8, 114u8, 116u8],
        r.deep_view()[0].op == FilterOp::Sqrt,
        r.deep_view()[1].name == seq![114u8, 111u8, 117u8, 110u8, 100u8],
        r.deep_view()[1].op == FilterOp::Round,
        r.deep_view()[2].name == seq![116u8, 111u8, 117u8, 112u8, 112u8, 101u8, 114u8],
        r.deep_view()[2].op == FilterOp::ToUpper,
{
    let sqrt_name: Vec<u8> = vec![115, 113, 114, 116];
    let round_name: Vec<u8> = vec![114, 111, 117, 110, 100];
    let toupper_name: Vec<u8> = vec![116, 111, 117, 112, 112, 101, 114];
    let mut r: Vec<Filter> = Vec::new();
    r.push(Filter { name: sqrt_name, arity: 0, input: Ty::Num, output: Ty::Num, op: FilterOp::Sqrt });
    r.push(
        Filter { name: round_name, arity: 1, input: Ty::Num, output: Ty::Num, op: FilterOp::Round },
    );
    r.push(
        Filter {
            name: toupper_name,
            arity: 0,
            input: Ty::Str,
            output: Ty::Str,
            op: FilterOp::ToUpper,
        },
    );
    proof {
        assert(r.deep_view()[0].name =~= seq![115u8, 113u8, 114u8, 116u8]);
        assert(r.deep_view()[1].name =~= seq![114u8, 111u8, 117u8, 110u8, 100u8]);
        assert(r.deep_view()[2].name =~= seq![116u8, 111u8, 117u8, 112u8, 112u8, 101u8, 114u8]);
    }
    r
}

} // verus!
