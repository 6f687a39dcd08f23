//! Schema binding: the two field tables a template is compiled against.
//!
//! The Environment table maps field names to values fixed for a whole render
//! batch; the Row table maps field names to the type of the value each row
//! supplies.  A name present in both tables resolves to the Environment.
//! A row is passed positionally: slot `i` of a row holds the value of field
//! `i` of the Row table.

use vstd::prelude::*;

use crate::value::Ty;
use crate::value::Value;
use crate::value::ValueS;
use crate::value::ty_of;
use crate::value::bytes_eq;
use crate::value::clone_value;

verus! {

/// The value of the first Environment entry of the given name, searched from
/// `i`.
pub open spec fn env_lookup_from(
    env: Seq<(Seq<u8>, ValueS)>,
    name: Seq<u8>,
    i: int,
) -> Option<ValueS>
    decreases env.len() - i,
    when 0 <= i <= env.len()
{
    if i >= env.len() {
        None
    } else if env[i].0 == name {
        Some(env[i].1)
    } else {
        env_lookup_from(env, name, i + 1)
    }
}

/// The value of the first Environment entry of the given name.
pub open spec fn env_lookup(env: Seq<(Seq<u8>, ValueS)>, name: Seq<u8>) -> Option<ValueS> {
    env_lookup_from(env, name, 0)
}

/// The slot index and declared type of the first Row field of the given name,
/// searched from `i`.
pub open spec fn slot_lookup_from(
    sch: Seq<(Seq<u8>, Ty)>,
    name: Seq<u8>,
    i: int,
) -> Option<(int, Ty)>
    decreases sch.len() - i,
    when 0 <= i <= sch.len()
{
    if i >= sch.len() {
        None
    } else if sch[i].0 == name {
        Some((i, sch[i].1))
    } else {
        slot_lookup_from(sch, name, i + 1)
    }
}

/// The slot index and declared type of the first Row field of the given name.
pub open spec fn slot_lookup(sch: Seq<(Seq<u8>, Ty)>, name: Seq<u8>) -> Option<(int, Ty)> {
    slot_lookup_from(sch, name, 0)
}

pub proof fn lemma_slot_lookup(sch: Seq<(Seq<u8>, Ty)>, name: Seq<u8>, i: int)
    requires
        0 <= i <= sch.len(),
    ensures
        slot_lookup_from(sch, name, i) matches Some(st) ==> i <= st.0 < sch.len() && sch[st.0].1
            == st.1,
    decreases sch.len() - i,
{
    if i < sch.len() && sch[i].0 != name {
        lemma_slot_lookup(sch, name, i + 1);
    }
}

/// A row conforms to the Row table when it has one value per declared field,
/// each of the declared type.
pub open spec fn row_conforms(row: Seq<ValueS>, sch: Seq<(Seq<u8>, Ty)>) -> bool {
    row.len() == sch.len() && forall|i: int|
        0 <= i < row.len() ==> ty_of(#[trigger] row[i]) == sch[i].1
}

/// Looks a name up in the Environment table, cloning its value.
pub fn find_env(env: &Vec<(Vec<u8>, Value)>, name: &Vec<u8>) -> (r: Option<Value>)
    ensures
        r matches Some(v) ==> env_lookup(env.deep_view(), name@) == Some(v.deep_view()),
        r is None ==> env_lookup(env.deep_view(), name@) is None,
{
    let mut i: usize = 0;
    while i < env.len()
        invariant
            i <= env@.len(),
            env_lookup(env.deep_view(), name@) == env_lookup_from(
                env.deep_view(),
                name@,
                i as int,
            ),
        decreases env@.len() - i,
    {
        proof {
            assert(env.deep_view()[i as int].0 =~= env@[i as int].0@);
        }
        if bytes_eq(&env[i].0, name) {
            return Some(clone_value(&env[i].1));
        }
        i = i + 1;
    }
    None
}

/// Looks a name up in the Row table, returning its slot index and type.
pub fn find_slot(sch: &Vec<(Vec<u8>, Ty)>, name: &Vec<u8>) -> (r: Option<(usize, Ty)>)
    ensures
        r matches Some(st) ==> slot_lookup(sch.deep_view(), name@) == Some(
            (st.0 as int, st.1),
        ) && st.0 < sch@.len(),
        r is None ==> slot_lookup(sch.deep_view(), name@) is None,
{
    let mut i: usize = 0;
    while i < sch.len()
        invariant
            i <= sch@.len(),
            slot_lookup(sch.deep_view(), name@) == slot_lookup_from(
                sch.deep_view(),
                name@,
                i as int,
            ),
        decreases sch@.len() - i,
    {
        proof {
            assert(sch.deep_view()[i as int].0 =~= sch@[i as int].0@);
        }
        if bytes_eq(&sch[i].0, name) {
            return Some((i, sch[i].1));
        }
        i = i + 1;
    }
    None
}

} // verus!
