//! What an expression evaluates to.

use crate::number::Number;
use vstd::prelude::*;

verus! {

/// A value at run time.
#[derive(Debug, PartialEq, Eq)]
pub enum Value {
    Number(Number),
    Word(String),
    List(Vec<Value>),
}

/// The mathematical form of a `Value`: lists are sequences.
pub enum Datum {
    Number(Number),
    Word(String),
    List(Seq<Datum>),
}

/// The data of the first `upto` values of `items`.
pub open spec fn data_of(items: Seq<Value>, upto: nat) -> Seq<Datum>
    decreases items, upto,
{
    if upto == 0 || upto > items.len() {
        Seq::empty()
    } else {
        data_of(items, (upto - 1) as nat).push(items[upto - 1].view())
    }
}

impl View for Value {
    type V = Datum;

    open spec fn view(&self) -> Datum
        decreases self, 0nat,
    {
        match self {
            Value::Number(n) => Datum::Number(*n),
            Value::Word(w) => Datum::Word(*w),
            Value::List(items) => Datum::List(data_of(items@, items@.len())),
        }
    }
}

/// `data_of` maps `view` over a prefix.
pub proof fn data_of_is_pointwise(items: Seq<Value>, upto: nat)
    requires
        upto <= items.len(),
    ensures
        data_of(items, upto).len() == upto,
        forall|i: int| 0 <= i < upto ==> (#[trigger] data_of(items, upto)[i]) == items[i]@,
    decreases upto,
{
    if upto > 0 {
        data_of_is_pointwise(items, (upto - 1) as nat);
        assert(data_of(items, upto) == data_of(items, (upto - 1) as nat).push(
            items[upto - 1].view(),
        ));
    } else {
        assert(data_of(items, upto) == Seq::<Datum>::empty());
    }
}

impl Value {
    /// A copy with the same data.
    pub fn duplicate(&self) -> (r: Value)
        ensures
            r@ == self@,
        decreases self,
    {
        match self {
            Value::Number(n) => Value::Number(*n),
            Value::Word(w) => Value::Word(w.clone()),
            Value::List(items) => {
                let mut copies: Vec<Value> = Vec::new();
                let mut i: usize = 0;
                while i < items.len()
                    invariant
                        i <= items.len(),
                        copies.len() == i,
                        self matches Value::List(list) && list == items,
                        forall|j: int| 0 <= j < i ==> (#[trigger] copies@[j])@ == items@[j]@,
                    decreases items.len() - i,
                {
                    assert(decreases_to!(items => items[i as int]));
                    copies.push(items[i].duplicate());
                    i = i + 1;
                }
                proof {
                    data_of_is_pointwise(items@, items@.len());
                    data_of_is_pointwise(copies@, copies@.len());
                    assert(data_of(copies@, copies@.len()) =~= data_of(items@, items@.len()));
                }
                Value::List(copies)
            },
        }
    }
}

} // verus!
