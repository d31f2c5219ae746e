//! The untyped level description: a recursive, dynamically-keyed value as
//! an external scripting evaluator returns it. The decoder walks this
//! shape and produces the typed map model.

use vstd::prelude::*;
use crate::rat::{RatS, Scalar};

verus! {

/// Mathematical value of an untyped script value.
#[verifier::ext_equal]
pub ghost enum ValueS {
    Num(RatS),
    Str(Seq<char>),
    Arr(Seq<ValueS>),
    Obj(Seq<(Seq<char>, ValueS)>),
}

/// An untyped script value: a number, a string, an array, or a keyed map.
#[derive(PartialEq, Debug)]
pub enum Value {
    Num(Scalar),
    Str(String),
    Arr(Vec<Value>),
    Obj(Vec<(String, Value)>),
}

/// The mathematical values a vector of script values denotes.
pub open spec fn vals_view(items: Seq<Value>) -> Seq<ValueS>
    decreases items,
{
    Seq::new(
        items.len(),
        |i: int|
            if 0 <= i < items.len() {
                items[i]@
            } else {
                ValueS::Num(RatS::from_int(0))
            },
    )
}

/// The mathematical entries a vector of keyed script values denotes.
pub open spec fn entries_view(entries: Seq<(String, Value)>) -> Seq<(Seq<char>, ValueS)>
    decreases entries,
{
    Seq::new(
        entries.len(),
        |i: int|
            if 0 <= i < entries.len() {
                (entries[i].0@, entries[i].1@)
            } else {
                (Seq::<char>::empty(), ValueS::Num(RatS::from_int(0)))
            },
    )
}

impl View for Value {
    type V = ValueS;

    open spec fn view(&self) -> ValueS
        decreases self,
    {
        match self {
            Value::Num(s) => ValueS::Num(s@),
            Value::Str(s) => ValueS::Str(s@),
            Value::Arr(items) => ValueS::Arr(vals_view(items@)),
            Value::Obj(entries) => ValueS::Obj(entries_view(entries@)),
        }
    }
}

} // verus!
