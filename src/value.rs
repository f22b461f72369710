use vstd::prelude::*;

use crate::synthesizer::Index;

verus! {

broadcast use {vstd::std_specs::vec::axiom_vec_decreases_to_view, vstd::seq::axiom_seq_index_decreases, vstd::seq::axiom_seq_subrange_decreases};

/// A position in the source text, for diagnostics.
#[derive(Debug, Clone, Copy, PartialEq, Eq, Structural)]
pub struct Span {
    pub line: usize,
    pub start: usize,
}

/// A boolean: a constant, which takes no variable, or a variable of the
/// synthesizer holding `0` or `1`.
#[derive(Debug, Clone, Copy, PartialEq, Eq, Structural)]
pub enum BooleanValue {
    Constant(bool),
    Allocated(Index),
}

/// The result of enforcing an expression.
#[derive(Debug)]
pub enum ConstrainedValue {
    /// A boolean, constant or held in a variable.
    Boolean(BooleanValue),
    /// A field element held in a variable of the synthesizer.
    Field(Index),
    /// An instance of the circuit with this handle, with its data members
    /// in the order they were given.
    CircuitExpression(usize, Vec<ConstrainedCircuitMember>),
}

/// A data member of a circuit instance: its name and its value.
#[derive(Debug)]
pub struct ConstrainedCircuitMember(pub String, pub ConstrainedValue);

/// The mathematical content of a constrained value.
pub enum ValueModel {
    Boolean(BooleanValue),
    Field(Index),
    Circuit(usize, Seq<(Seq<char>, ValueModel)>),
}

impl ConstrainedValue {
    pub open spec fn model(self) -> ValueModel
        decreases self,
    {
        match self {
            ConstrainedValue::Boolean(b) => ValueModel::Boolean(b),
            ConstrainedValue::Field(i) => ValueModel::Field(i),
            ConstrainedValue::CircuitExpression(c, ms) => ValueModel::Circuit(c, members_model(ms@)),
        }
    }
}

pub open spec fn members_model(ms: Seq<ConstrainedCircuitMember>) -> Seq<(Seq<char>, ValueModel)>
    decreases ms,
{
    if ms.len() == 0 {
        Seq::empty()
    } else {
        let last = ms[ms.len() - 1];
        members_model(ms.subrange(0, ms.len() - 1)).push((last.0@, last.1.model()))
    }
}

/// `members_model` keeps the length and maps each member in place.
pub proof fn lemma_members_model(ms: Seq<ConstrainedCircuitMember>)
    ensures
        members_model(ms).len() == ms.len(),
        forall|k: int| 0 <= k < ms.len() ==> #[trigger] members_model(ms)[k] == (ms[k].0@, ms[k].1.model()),
    decreases ms.len(),
{
    if ms.len() > 0 {
        let pre = ms.subrange(0, ms.len() - 1);
        lemma_members_model(pre);
        assert forall|k: int| 0 <= k < ms.len() implies #[trigger] members_model(ms)[k] == (
        ms[k].0@,
        ms[k].1.model(),
        ) by {
            if k < ms.len() - 1 {
                assert(pre[k] == ms[k]);
            }
        }
    }
}

} // verus!
