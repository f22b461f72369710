use vstd::prelude::*;

use crate::field::{canonical, FieldElement};

verus! {

/// A variable slot, in the public or the private index space.
#[derive(Debug, Clone, Copy, PartialEq, Eq, Structural)]
pub enum Index {
    /// The constant one that leads the assignment vector.
    One,
    Public(usize),
    Private(usize),
}

/// Which index space a new variable goes to.
#[derive(Debug, Clone, Copy, PartialEq, Eq, Structural)]
pub enum Visibility {
    Public,
    Private,
}

/// One term of a linear combination: a coefficient and a variable.
pub type Term = (FieldElement, Index);

/// A slot table as digit strings; an absent slot is `None`.
pub type SlotsModel = Seq<Option<Seq<char>>>;

/// A sparse row as (coefficient digits, variable) pairs.
pub type RowModel = Seq<(Seq<char>, Index)>;

/// The mathematical content of a synthesizer.
pub struct SynthesizerModel {
    pub public: SlotsModel,
    pub private: SlotsModel,
    pub at: Seq<RowModel>,
    pub bt: Seq<RowModel>,
    pub ct: Seq<RowModel>,
}

pub open spec fn slot_model(o: Option<FieldElement>) -> Option<Seq<char>> {
    match o {
        Some(f) => Some(f@),
        None => None,
    }
}

pub open spec fn slots_model(s: Seq<Option<FieldElement>>) -> SlotsModel {
    s.map_values(|o: Option<FieldElement>| slot_model(o))
}

pub open spec fn term_model(t: Term) -> (Seq<char>, Index) {
    (t.0@, t.1)
}

pub open spec fn row_model(r: Seq<Term>) -> RowModel {
    r.map_values(|t: Term| term_model(t))
}

pub open spec fn matrix_model(m: Seq<Vec<Term>>) -> Seq<RowModel> {
    m.map_values(|r: Vec<Term>| row_model(r@))
}

pub open spec fn index_in_range(i: Index, num_public: nat, num_private: nat) -> bool {
    match i {
        Index::One => true,
        Index::Public(n) => n < num_public,
        Index::Private(n) => n < num_private,
    }
}

/// The value at `i`; the constant one holds `1`.
pub open spec fn slot_at(m: SynthesizerModel, i: Index) -> Option<Seq<char>> {
    match i {
        Index::One => Some("1"@),
        Index::Public(n) => m.public[n as int],
        Index::Private(n) => m.private[n as int],
    }
}

pub open spec fn slots_valid(s: SlotsModel) -> bool {
    forall|i: int| 0 <= i < s.len() && (#[trigger] s[i]) is Some ==> canonical(s[i]->0)
}

pub open spec fn row_canonical(r: RowModel) -> bool {
    forall|k: int| 0 <= k < r.len() ==> canonical((#[trigger] r[k]).0)
}

pub open spec fn row_in_range(r: RowModel, num_public: nat, num_private: nat) -> bool {
    forall|k: int| 0 <= k < r.len() ==> index_in_range((#[trigger] r[k]).1, num_public, num_private)
}

pub open spec fn row_valid(r: RowModel, num_public: nat, num_private: nat) -> bool {
    row_canonical(r) && row_in_range(r, num_public, num_private)
}

pub open spec fn matrix_valid(m: Seq<RowModel>, num_public: nat, num_private: nat) -> bool {
    forall|i: int| 0 <= i < m.len() ==> row_valid(#[trigger] m[i], num_public, num_private)
}

impl SynthesizerModel {
    /// The three matrices have one row per constraint, every value and
    /// coefficient is a canonical field element, and every row names only
    /// allocated variables.
    pub open spec fn wf(self) -> bool {
        &&& self.at.len() == self.bt.len()
        &&& self.at.len() == self.ct.len()
        &&& slots_valid(self.public)
        &&& slots_valid(self.private)
        &&& matrix_valid(self.at, self.public.len(), self.private.len())
        &&& matrix_valid(self.bt, self.public.len(), self.private.len())
        &&& matrix_valid(self.ct, self.public.len(), self.private.len())
    }
}

/// The constraint system built during one synthesis pass.
pub struct CircuitSynthesizer {
    pub(crate) public_variables: Vec<Option<FieldElement>>,
    pub(crate) private_variables: Vec<Option<FieldElement>>,
    pub(crate) at: Vec<Vec<Term>>,
    pub(crate) bt: Vec<Vec<Term>>,
    pub(crate) ct: Vec<Vec<Term>>,
    pub(crate) namespaces: Vec<String>,
}

impl View for CircuitSynthesizer {
    type V = SynthesizerModel;

    open(crate) spec fn view(&self) -> SynthesizerModel {
        SynthesizerModel {
            public: slots_model(self.public_variables@),
            private: slots_model(self.private_variables@),
            at: matrix_model(self.at@),
            bt: matrix_model(self.bt@),
            ct: matrix_model(self.ct@),
        }
    }
}

impl CircuitSynthesizer {
    pub open spec fn wf(&self) -> bool {
        self@.wf()
    }

    /// A synthesizer with no variables and no constraints.
    pub fn new() -> (r: CircuitSynthesizer)
        ensures
            r.wf(),
            r@.public.len() == 0,
            r@.private.len() == 0,
            r@.at.len() == 0,
            r@.bt.len() == 0,
            r@.ct.len() == 0,
            r.scopes().len() == 0,
    {
        let r = CircuitSynthesizer {
            public_variables: Vec::new(),
            private_variables: Vec::new(),
            at: Vec::new(),
            bt: Vec::new(),
            ct: Vec::new(),
            namespaces: Vec::new(),
        };
        assert(r@.public =~= Seq::empty());
        assert(r@.private =~= Seq::empty());
        r
    }

    /// Appends a new slot, holding `value`, to the index space of
    /// `visibility`, and returns its index.
    pub fn allocate(&mut self, visibility: Visibility, value: Option<FieldElement>) -> (r: Index)
        requires
            old(self).wf(),
            value matches Some(v) ==> v.valid(),
            visibility == Visibility::Public ==> old(self)@.public.len() < usize::MAX,
            visibility == Visibility::Private ==> old(self)@.private.len() < usize::MAX,
        ensures
            final(self).wf(),
            final(self).scopes() == old(self).scopes(),
            final(self)@.at == old(self)@.at,
            final(self)@.bt == old(self)@.bt,
            final(self)@.ct == old(self)@.ct,
            visibility == Visibility::Public ==> r == Index::Public(old(self)@.public.len() as usize)
                && final(self)@.public == old(self)@.public.push(slot_model(value))
                && final(self)@.private == old(self)@.private,
            visibility == Visibility::Private ==> r == Index::Private(
                old(self)@.private.len() as usize,
            ) && final(self)@.private == old(self)@.private.push(slot_model(value))
                && final(self)@.public == old(self)@.public,
    {
        let ghost before = self@;
        match visibility {
            Visibility::Public => {
                let n = self.public_variables.len();
                self.public_variables.push(value);
                assert(self@.public =~= before.public.push(slot_model(value)));
                proof {
                    self.lemma_grow_keeps_rows(before);
                }
                Index::Public(n)
            },
            Visibility::Private => {
                let n = self.private_variables.len();
                self.private_variables.push(value);
                assert(self@.private =~= before.private.push(slot_model(value)));
                proof {
                    self.lemma_grow_keeps_rows(before);
                }
                Index::Private(n)
            },
        }
    }

    /// Marks the slot at `index` absent; no other slot moves, and rows that
    /// name `index` keep naming it.
    pub fn remove(&mut self, index: Index)
        requires
            old(self).wf(),
            index_in_range(index, old(self)@.public.len(), old(self)@.private.len()),
            !(index is One),
        ensures
            final(self).wf(),
            final(self).scopes() == old(self).scopes(),
            final(self)@.at == old(self)@.at,
            final(self)@.bt == old(self)@.bt,
            final(self)@.ct == old(self)@.ct,
            match index {
                Index::Public(n) => final(self)@.public == old(self)@.public.update(n as int, None)
                    && final(self)@.private == old(self)@.private,
                Index::Private(n) => final(self)@.private == old(self)@.private.update(n as int, None)
                    && final(self)@.public == old(self)@.public,
                Index::One => true,
            },
    {
        let ghost before = self@;
        match index {
            Index::Public(n) => {
                self.public_variables.set(n, None);
                assert(self@.public =~= before.public.update(n as int, None));
            },
            Index::Private(n) => {
                self.private_variables.set(n, None);
                assert(self@.private =~= before.private.update(n as int, None));
            },
            Index::One => {},
        }
        proof {
            self.lemma_grow_keeps_rows(before);
        }
    }

    /// Appends the constraint `(a . x) * (b . x) = (c . x)`: one row to each
    /// matrix, at the same position.
    pub fn enforce(&mut self, a: Vec<Term>, b: Vec<Term>, c: Vec<Term>)
        requires
            old(self).wf(),
            row_valid(row_model(a@), old(self)@.public.len(), old(self)@.private.len()),
            row_valid(row_model(b@), old(self)@.public.len(), old(self)@.private.len()),
            row_valid(row_model(c@), old(self)@.public.len(), old(self)@.private.len()),
        ensures
            final(self).wf(),
            final(self).scopes() == old(self).scopes(),
            final(self)@.public == old(self)@.public,
            final(self)@.private == old(self)@.private,
            final(self)@.at == old(self)@.at.push(row_model(a@)),
            final(self)@.bt == old(self)@.bt.push(row_model(b@)),
            final(self)@.ct == old(self)@.ct.push(row_model(c@)),
    {
        let ghost before = self@;
        self.at.push(a);
        self.bt.push(b);
        self.ct.push(c);
        assert(self@.at =~= before.at.push(row_model(a@)));
        assert(self@.bt =~= before.bt.push(row_model(b@)));
        assert(self@.ct =~= before.ct.push(row_model(c@)));
        assert(self@.public =~= before.public);
        assert(self@.private =~= before.private);
        let ghost np = self@.public.len();
        let ghost nq = self@.private.len();
        assert forall|i: int| 0 <= i < self@.at.len() implies row_valid(#[trigger] self@.at[i], np, nq) by {
            if i < before.at.len() {
                assert(self@.at[i] == before.at[i]);
            }
        }
        assert forall|i: int| 0 <= i < self@.bt.len() implies row_valid(#[trigger] self@.bt[i], np, nq) by {
            if i < before.bt.len() {
                assert(self@.bt[i] == before.bt[i]);
            }
        }
        assert forall|i: int| 0 <= i < self@.ct.len() implies row_valid(#[trigger] self@.ct[i], np, nq) by {
            if i < before.ct.len() {
                assert(self@.ct[i] == before.ct[i]);
            }
        }
    }

    /// The debug scope labels, in the order they were opened. They play no
    /// part in the constraint system.
    pub open(crate) spec fn scopes(&self) -> Seq<Seq<char>> {
        self.namespaces@.map_values(|n: String| n@)
    }

    /// Opens a debug scope labelled `label`; the constraint system is
    /// unchanged.
    pub fn push_namespace(&mut self, label: String)
        ensures
            final(self)@ == old(self)@,
            final(self).wf() == old(self).wf(),
            final(self).scopes() == old(self).scopes().push(label@),
    {
        let ghost before = self.scopes();
        self.namespaces.push(label);
        assert(self.scopes() =~= before.push(label@));
    }

    /// The debug scope labels.
    pub fn namespaces(&self) -> (r: Vec<String>)
        ensures
            r@.map_values(|n: String| n@) == self.scopes(),
    {
        let mut r: Vec<String> = Vec::new();
        let mut i: usize = 0;
        while i < self.namespaces.len()
            invariant
                i <= self.namespaces@.len(),
                r@.len() == i,
                forall|j: int| 0 <= j < i ==> #[trigger] r@[j]@ == self.namespaces@[j]@,
            decreases self.namespaces@.len() - i,
        {
            r.push(self.namespaces[i].clone());
            i = i + 1;
        }
        assert(r@.map_values(|n: String| n@) =~= self.scopes());
        r
    }

    /// The number of public variable slots, removed ones included.
    pub fn num_public_variables(&self) -> (r: usize)
        ensures
            r == self@.public.len(),
    {
        self.public_variables.len()
    }

    /// The number of private variable slots, removed ones included.
    pub fn num_private_variables(&self) -> (r: usize)
        ensures
            r == self@.private.len(),
    {
        self.private_variables.len()
    }

    /// The number of constraints.
    pub fn num_constraints(&self) -> (r: usize)
        requires
            self.wf(),
        ensures
            r == self@.at.len(),
    {
        self.at.len()
    }

    /// `(public slots, private slots, constraints)`.
    pub fn counts(&self) -> (r: (usize, usize, usize))
        requires
            self.wf(),
        ensures
            r == (self@.public.len() as usize, self@.private.len() as usize, self@.at.len() as usize),
    {
        (self.public_variables.len(), self.private_variables.len(), self.at.len())
    }

    /// The value held at `index`: `None` where the slot is absent or was
    /// never given a value.
    pub fn value(&self, index: Index) -> (r: Option<FieldElement>)
        requires
            index_in_range(index, self@.public.len(), self@.private.len()),
        ensures
            slot_model(r) == slot_at(self@, index),
            self.wf() ==> (r matches Some(f) ==> f.valid()),
    {
        let slot = match index {
            Index::Public(n) => &self.public_variables[n],
            Index::Private(n) => &self.private_variables[n],
            Index::One => {
                proof {
                    reveal_strlit("1");
                }
                return Some(FieldElement::one());
            },
        };
        match slot {
            Some(f) => Some(f.duplicate()),
            None => None,
        }
    }

    /// Whether the slot at `index` holds a value.
    pub fn is_present(&self, index: Index) -> (r: bool)
        ensures
            r == (index_in_range(index, self@.public.len(), self@.private.len()) && match index {
                Index::Public(n) => self@.public[n as int] is Some,
                Index::Private(n) => self@.private[n as int] is Some,
                Index::One => true,
            }),
    {
        match index {
            Index::One => true,
            Index::Public(n) => n < self.public_variables.len() && self.public_variables[n].is_some(),
            Index::Private(n) => n < self.private_variables.len() && self.private_variables[n].is_some(),
        }
    }

    proof fn lemma_grow_keeps_rows(&self, before: SynthesizerModel)
        requires
            before.wf(),
            self@.at == before.at,
            self@.bt == before.bt,
            self@.ct == before.ct,
            self@.public.len() >= before.public.len(),
            self@.private.len() >= before.private.len(),
            slots_valid(self@.public),
            slots_valid(self@.private),
        ensures
            self.wf(),
    {
        let np = self@.public.len();
        let nq = self@.private.len();
        assert forall|i: int| 0 <= i < self@.at.len() implies row_valid(#[trigger] self@.at[i], np, nq) by {
            assert(row_valid(before.at[i], before.public.len(), before.private.len()));
        }
        assert forall|i: int| 0 <= i < self@.bt.len() implies row_valid(#[trigger] self@.bt[i], np, nq) by {
            assert(row_valid(before.bt[i], before.public.len(), before.private.len()));
        }
        assert forall|i: int| 0 <= i < self@.ct.len() implies row_valid(#[trigger] self@.ct[i], np, nq) by {
            assert(row_valid(before.ct[i], before.public.len(), before.private.len()));
        }
    }
}

} // verus!
