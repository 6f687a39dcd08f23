//! Runtime values and their two semantic types.
//!
//! A value is either a number or a byte string; the compiler tracks which of
//! the two every expression produces, so the interpreter never sees a value of
//! the wrong type.

use vstd::prelude::*;

use crate::num::Num;
use crate::num::spec_fmt;

verus! {

/// The semantic type of a field, filter input or expression.
#[derive(Clone, Copy, PartialEq, Eq, Structural, Debug)]
pub enum Ty {
    Num,
    Str,
}

impl DeepView for Ty {
    type V = Ty;

    open spec fn deep_view(&self) -> Ty {
        *self
    }
}

impl DeepView for Num {
    type V = Num;

    open spec fn deep_view(&self) -> Num {
        *self
    }
}

/// A runtime value: a fixed-point number or a byte string.
#[derive(Clone, Debug)]
pub enum Value {
    Num(Num),
    Str(Vec<u8>),
}

/// The mathematical shape of a runtime value.
pub enum ValueS {
    Num(Num),
    Str(Seq<u8>),
}

impl DeepView for Value {
    type V = ValueS;

    open spec fn deep_view(&self) -> ValueS {
        match self {
            Value::Num(n) => ValueS::Num(*n),
            Value::Str(s) => ValueS::Str(s.deep_view()),
        }
    }
}

pub open spec fn ty_of(v: ValueS) -> Ty {
    match v {
        ValueS::Num(_) => Ty::Num,
        ValueS::Str(_) => Ty::Str,
    }
}

/// The numeric reading of a value; a string reads as `Nan`.  The compiler's
/// type checks keep rendering away from this fallback.
pub open spec fn as_num(v: ValueS) -> Num {
    match v {
        ValueS::Num(n) => n,
        ValueS::Str(_) => Num::Nan,
    }
}

/// The rendered text of a value: numbers in decimal, strings byte for byte.
pub open spec fn spec_fmt_value(v: ValueS) -> Seq<u8> {
    match v {
        ValueS::Num(n) => spec_fmt(n),
        ValueS::Str(s) => s,
    }
}

/// ASCII uppercase of one byte; anything outside `a..=z` passes through.
pub open spec fn upper_byte(b: u8) -> u8 {
    if 97 <= b && b <= 122 {
        (b - 32) as u8
    } else {
        b
    }
}

/// ASCII uppercase of a byte string.
pub open spec fn upper_bytes(s: Seq<u8>) -> Seq<u8> {
    Seq::new(s.len(), |i: int| upper_byte(s[i]))
}

/// A fresh copy of a byte string.
pub fn clone_bytes(s: &Vec<u8>) -> (r: Vec<u8>)
    ensures
        r@ == s@,
{
    let mut r: Vec<u8> = Vec::new();
    let mut i: usize = 0;
    while i < s.len()
        invariant
            i <= s.len(),
            r@ == s@.take(i as int),
        decreases s.len() - i,
    {
        r.push(s[i]);
        i = i + 1;
        assert(r@ =~= s@.take(i as int));
    }
    assert(r@ =~= s@);
    r
}

/// A fresh copy of a value.
pub fn clone_value(v: &Value) -> (r: Value)
    ensures
        r.deep_view() == v.deep_view(),
{
    match v {
        Value::Num(n) => Value::Num(*n),
        Value::Str(s) => Value::Str(clone_bytes(s)),
    }
}

/// Byte-string equality.
pub fn bytes_eq(a: &Vec<u8>, b: &Vec<u8>) -> (r: bool)
    ensures
        r <==> a@ == b@,
{
    if a.len() != b.len() {
        return false;
    }
    let mut i: usize = 0;
    while i < a.len()
        invariant
            i <= a.len(),
            a@.len() == b@.len(),
            forall|j: int| 0 <= j < i ==> a@[j] == b@[j],
        decreases a.len() - i,
    {
        if a[i] != b[i] {
            return false;
        }
        i = i + 1;
    }
    proof {
        assert(a@ =~= b@);
    }
    true
}

/// ASCII uppercase of a byte string, for the `toupper` filter.
pub fn to_upper(s: &Vec<u8>) -> (r: Vec<u8>)
    ensures
        r@ == upper_bytes(s@),
{
    let mut r: Vec<u8> = Vec::new();
    let mut i: usize = 0;
    while i < s.len()
        invariant
            i <= s.len(),
            r@ == upper_bytes(s@).take(i as int),
        decreases s.len() - i,
    {
        let b = s[i];
        if 97 <= b && b <= 122 {
            r.push(b - 32);
        } else {
            r.push(b);
        }
        i = i + 1;
        assert(r@ =~= upper_bytes(s@).take(i as int));
    }
    assert(r@ =~= upper_bytes(s@));
    r
}

/// Appends the rendered text of a value to `out`.
pub fn fmt_value_push(v: &Value, out: &mut Vec<u8>)
    ensures
        final(out)@ == old(out)@ + spec_fmt_value(v.deep_view()),
{
    match v {
        Value::Num(n) => {
            n.fmt_push(out);
        },
        Value::Str(s) => {
            let mut copy = clone_bytes(s);
            out.append(&mut copy);
        },
    }
}

} // verus!
