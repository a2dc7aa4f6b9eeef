//! The generic JSON tree the codec consumes and produces.
//!
//! Objects are kept as entry lists, so member order is part of the value:
//! the netlist format treats the order of named mappings and of unrecognized
//! fields as meaningful, and re-encoding must reproduce it.

use vstd::prelude::*;

verus! {

broadcast use vstd::std_specs::vec::axiom_vec_index_decreases, vstd::std_specs::vec::axiom_vec_decreases_to_view, vstd::seq::axiom_seq_index_decreases;

/// A JSON value. Numbers are split into non-negative (`Uint`) and negative
/// (`Nint`) integers; the netlist format itself only uses non-negative ones.
#[derive(Debug, PartialEq, Eq)]
pub enum Json {
    Null,
    Bool(bool),
    Uint(u64),
    Nint(i64),
    Text(String),
    Arr(Vec<Json>),
    Obj(Vec<(String, Json)>),
}

/// The mathematical model of a [`Json`] tree: strings become character
/// sequences, arrays and objects become sequences.
#[verifier::ext_equal]
pub enum JVal {
    Null,
    Bool(bool),
    Uint(u64),
    Nint(i64),
    Text(Seq<char>),
    Arr(Seq<JVal>),
    Obj(Seq<(Seq<char>, JVal)>),
}

/// The model of a JSON value.
pub open spec fn jval(j: Json) -> JVal
    decreases j,
{
    match j {
        Json::Null => JVal::Null,
        Json::Bool(b) => JVal::Bool(b),
        Json::Uint(n) => JVal::Uint(n),
        Json::Nint(n) => JVal::Nint(n),
        Json::Text(s) => JVal::Text(s@),
        Json::Arr(v) => {
            proof {
                assert(decreases_to!(v => v@));
            }
            JVal::Arr(jarr(v@))
        }
        Json::Obj(v) => {
            proof {
                assert(decreases_to!(v => v@));
            }
            JVal::Obj(jentries(v@))
        }
    }
}

/// The model of a JSON array's elements.
pub open spec fn jarr(v: Seq<Json>) -> Seq<JVal>
    decreases v,
{
    if v.len() == 0 {
        Seq::empty()
    } else {
        seq![jval(v[0])] + jarr(v.subrange(1, v.len() as int))
    }
}

/// The model of a JSON object's entries, order kept.
pub open spec fn jentries(v: Seq<(String, Json)>) -> Seq<(Seq<char>, JVal)>
    decreases v,
{
    if v.len() == 0 {
        Seq::empty()
    } else {
        proof {
            assert(decreases_to!(v => v[0]));
        }
        seq![(v[0].0@, jval(v[0].1))] + jentries(v.subrange(1, v.len() as int))
    }
}

/// `jarr` maps the elements pointwise.
pub broadcast proof fn lemma_jarr_index(v: Seq<Json>)
    ensures
        (#[trigger] jarr(v)).len() == v.len(),
        forall|i: int| 0 <= i < v.len() ==> #[trigger] jarr(v)[i] == jval(v[i]),
    decreases v.len(),
{
    if v.len() > 0 {
        let rest = v.subrange(1, v.len() as int);
        lemma_jarr_index(rest);
        assert forall|i: int| 0 <= i < v.len() implies #[trigger] jarr(v)[i] == jval(v[i]) by {
            if i > 0 {
                assert(rest[i - 1] == v[i]);
            }
        }
    }
}

/// `jentries` maps the entries pointwise, keys and values alike.
pub broadcast proof fn lemma_jentries_index(v: Seq<(String, Json)>)
    ensures
        (#[trigger] jentries(v)).len() == v.len(),
        forall|i: int| 0 <= i < v.len() ==> #[trigger] jentries(v)[i] == (v[i].0@, jval(v[i].1)),
    decreases v.len(),
{
    if v.len() > 0 {
        let rest = v.subrange(1, v.len() as int);
        lemma_jentries_index(rest);
        assert forall|i: int| 0 <= i < v.len() implies #[trigger] jentries(v)[i] == (
        v[i].0@,
        jval(v[i].1),
        ) by {
            if i > 0 {
                assert(rest[i - 1] == v[i]);
            }
        }
    }
}

impl View for Json {
    type V = JVal;

    open spec fn view(&self) -> JVal {
        jval(*self)
    }
}

/// Relies on str's `PartialEq`: two string slices are equal exactly when
/// their character sequences are.
#[verifier::external_body]
pub(crate) fn str_eq(a: &str, b: &str) -> (r: bool)
    ensures
        r == (a@ == b@),
{
    a == b
}

/// Deep copy of a JSON value, with the same model.
#[verifier::loop_isolation(false)]
pub fn clone_json(j: &Json) -> (r: Json)
    ensures
        r@ == j@,
    decreases *j,
{
    match j {
        Json::Null => Json::Null,
        Json::Bool(b) => Json::Bool(*b),
        Json::Uint(n) => Json::Uint(*n),
        Json::Nint(n) => Json::Nint(*n),
        Json::Text(s) => Json::Text(s.clone()),
        Json::Arr(v) => {
            let mut out: Vec<Json> = Vec::new();
            let mut i: usize = 0;
            while i < v.len()
                invariant
                    i <= v.len(),
                    out@.len() == i as int,
                    forall|k: int| 0 <= k < i ==> jval(out@[k]) == jval(v@[k]),
                decreases v.len() - i,
            {
                proof {
                    let jj = *j;
                    assert(decreases_to!(jj => jj->Arr_0));
                    assert(decreases_to!(jj->Arr_0 => jj->Arr_0@));
                    assert(decreases_to!(jj->Arr_0@ => jj->Arr_0@[i as int]));
                }
                out.push(clone_json(&v[i]));
                i += 1;
            }
            proof {
                broadcast use lemma_jarr_index;

                assert(jarr(out@) =~= jarr(v@));
            }
            Json::Arr(out)
        }
        Json::Obj(v) => {
            let mut out: Vec<(String, Json)> = Vec::new();
            let mut i: usize = 0;
            while i < v.len()
                invariant
                    i <= v.len(),
                    out@.len() == i as int,
                    forall|k: int| 0 <= k < i ==> out@[k].0@ == v@[k].0@
                        && jval(out@[k].1) == jval(v@[k].1),
                decreases v.len() - i,
            {
                let key = v[i].0.clone();
                proof {
                    let jj = *j;
                    assert(decreases_to!(jj => jj->Obj_0));
                    assert(decreases_to!(jj->Obj_0 => jj->Obj_0@));
                    assert(decreases_to!(jj->Obj_0@ => jj->Obj_0@[i as int]));
                    assert(decreases_to!(jj->Obj_0@[i as int] => jj->Obj_0@[i as int].1));
                }
                let val = clone_json(&v[i].1);
                out.push((key, val));
                i += 1;
            }
            proof {
                broadcast use lemma_jentries_index;

                assert(jentries(out@) =~= jentries(v@));
            }
            Json::Obj(out)
        }
    }
}

impl Clone for Json {
    /// A clone is a deep copy with the same model.
    fn clone(&self) -> (r: Json)
        ensures
            r@ == self@,
    {
        clone_json(self)
    }
}

/// Deep copy of a JSON object's entry list, with the same model.
pub fn clone_entries(v: &Vec<(String, Json)>) -> (r: Vec<(String, Json)>)
    ensures
        jentries(r@) == jentries(v@),
{
    let mut out: Vec<(String, Json)> = Vec::new();
    let mut i: usize = 0;
    while i < v.len()
        invariant
            i <= v.len(),
            out@.len() == i as int,
            forall|k: int| 0 <= k < i ==> out@[k].0@ == v@[k].0@
                && jval(out@[k].1) == jval(v@[k].1),
        decreases v.len() - i,
    {
        let key = v[i].0.clone();
        let val = clone_json(&v[i].1);
        out.push((key, val));
        i += 1;
    }
    proof {
        broadcast use lemma_jentries_index;

        assert(jentries(out@) =~= jentries(v@));
    }
    out
}

} // verus!
