use vstd::prelude::*;

use crate::field::{canonical, FieldElement, FieldError};
use crate::synthesizer::{
    index_in_range, row_canonical, row_in_range, row_model, row_valid, slot_model, term_model, slots_model, slots_valid, matrix_model, CircuitSynthesizer, Index,
    RowModel, SlotsModel, SynthesizerModel, Term,
};

verus! {

/// A field element in a snapshot: its decimal digits.
#[derive(Debug, Clone, PartialEq, Eq)]
pub struct SerializedField(pub String);

/// A variable index in a snapshot.
#[derive(Debug, Clone, Copy, PartialEq, Eq, Structural)]
pub enum SerializedIndex {
    One,
    Public(usize),
    Private(usize),
}

/// The portable form of a synthesizer. Each slot is kept in place, an
/// absent one as `None`, so that indices survive a round trip.
#[derive(Debug, Clone)]
pub struct SerializedCircuit {
    pub num_public_variables: usize,
    pub num_private_variables: usize,
    pub num_constraints: usize,
    pub public_variables: Vec<Option<SerializedField>>,
    pub private_variables: Vec<Option<SerializedField>>,
    pub at: Vec<Vec<(SerializedField, SerializedIndex)>>,
    pub bt: Vec<Vec<(SerializedField, SerializedIndex)>>,
    pub ct: Vec<Vec<(SerializedField, SerializedIndex)>>,
}

/// Why a snapshot does not decode.
#[derive(Debug, Clone, Copy, PartialEq, Eq, Structural)]
pub enum SnapshotError {
    /// The counts disagree with the lengths of the tables and matrices.
    Shape,
    /// A value or coefficient is not a canonical field element.
    Field(FieldError),
    /// A row names a variable that the snapshot does not hold.
    Index,
}

/// The content of a snapshot, with indices read as synthesizer indices.
pub struct SnapshotModel {
    pub num_public: nat,
    pub num_private: nat,
    pub num_constraints: nat,
    pub public: SlotsModel,
    pub private: SlotsModel,
    pub at: Seq<RowModel>,
    pub bt: Seq<RowModel>,
    pub ct: Seq<RowModel>,
}

pub open spec fn index_of(i: SerializedIndex) -> Index {
    match i {
        SerializedIndex::One => Index::One,
        SerializedIndex::Public(n) => Index::Public(n),
        SerializedIndex::Private(n) => Index::Private(n),
    }
}

pub open spec fn ser_slot_model(o: Option<SerializedField>) -> Option<Seq<char>> {
    match o {
        Some(f) => Some(f.0@),
        None => None,
    }
}

pub open spec fn ser_slots_model(s: Seq<Option<SerializedField>>) -> SlotsModel {
    s.map_values(|o: Option<SerializedField>| ser_slot_model(o))
}

pub open spec fn ser_term_model(t: (SerializedField, SerializedIndex)) -> (Seq<char>, Index) {
    (t.0.0@, index_of(t.1))
}

pub open spec fn ser_row_model(r: Seq<(SerializedField, SerializedIndex)>) -> RowModel {
    r.map_values(|t: (SerializedField, SerializedIndex)| ser_term_model(t))
}

pub open spec fn ser_matrix_model(m: Seq<Vec<(SerializedField, SerializedIndex)>>) -> Seq<RowModel> {
    m.map_values(|r: Vec<(SerializedField, SerializedIndex)>| ser_row_model(r@))
}

impl View for SerializedCircuit {
    type V = SnapshotModel;

    open spec fn view(&self) -> SnapshotModel {
        SnapshotModel {
            num_public: self.num_public_variables as nat,
            num_private: self.num_private_variables as nat,
            num_constraints: self.num_constraints as nat,
            public: ser_slots_model(self.public_variables@),
            private: ser_slots_model(self.private_variables@),
            at: ser_matrix_model(self.at@),
            bt: ser_matrix_model(self.bt@),
            ct: ser_matrix_model(self.ct@),
        }
    }
}

/// The snapshot of a synthesizer: its counts, its slots and its rows.
pub open spec fn encode(m: SynthesizerModel) -> SnapshotModel {
    SnapshotModel {
        num_public: m.public.len(),
        num_private: m.private.len(),
        num_constraints: m.at.len(),
        public: m.public,
        private: m.private,
        at: m.at,
        bt: m.bt,
        ct: m.ct,
    }
}

/// The counts match the tables and the matrices.
pub open spec fn shape_ok(s: SnapshotModel) -> bool {
    &&& s.public.len() == s.num_public
    &&& s.private.len() == s.num_private
    &&& s.at.len() == s.num_constraints
    &&& s.bt.len() == s.num_constraints
    &&& s.ct.len() == s.num_constraints
}

pub open spec fn matrix_canonical(m: Seq<RowModel>) -> bool {
    forall|i: int| 0 <= i < m.len() ==> row_canonical(#[trigger] m[i])
}

pub open spec fn matrix_in_range(m: Seq<RowModel>, num_public: nat, num_private: nat) -> bool {
    forall|i: int| 0 <= i < m.len() ==> row_in_range(#[trigger] m[i], num_public, num_private)
}

/// Every value and coefficient is canonical.
pub open spec fn fields_ok(s: SnapshotModel) -> bool {
    &&& slots_valid(s.public)
    &&& slots_valid(s.private)
    &&& matrix_canonical(s.at)
    &&& matrix_canonical(s.bt)
    &&& matrix_canonical(s.ct)
}

/// Every row names only variables that the snapshot holds.
pub open spec fn indices_ok(s: SnapshotModel) -> bool {
    &&& matrix_in_range(s.at, s.public.len(), s.private.len())
    &&& matrix_in_range(s.bt, s.public.len(), s.private.len())
    &&& matrix_in_range(s.ct, s.public.len(), s.private.len())
}

pub open spec fn decodable(s: SnapshotModel) -> bool {
    shape_ok(s) && fields_ok(s) && indices_ok(s)
}

/// The synthesizer that a decodable snapshot stands for.
pub open spec fn decode(s: SnapshotModel) -> SynthesizerModel {
    SynthesizerModel { public: s.public, private: s.private, at: s.at, bt: s.bt, ct: s.ct }
}

fn encode_field(f: &FieldElement) -> (r: SerializedField)
    ensures
        r.0@ == f@,
{
    SerializedField(f.to_decimal())
}

fn encode_index(i: Index) -> (r: SerializedIndex)
    ensures
        index_of(r) == i,
{
    match i {
        Index::One => SerializedIndex::One,
        Index::Public(n) => SerializedIndex::Public(n),
        Index::Private(n) => SerializedIndex::Private(n),
    }
}

fn decode_index(i: SerializedIndex) -> (r: Index)
    ensures
        r == index_of(i),
{
    match i {
        SerializedIndex::One => Index::One,
        SerializedIndex::Public(n) => Index::Public(n),
        SerializedIndex::Private(n) => Index::Private(n),
    }
}

fn encode_slots(v: &Vec<Option<FieldElement>>) -> (r: Vec<Option<SerializedField>>)
    ensures
        ser_slots_model(r@) == slots_model(v@),
{
    let mut r: Vec<Option<SerializedField>> = Vec::new();
    let mut i: usize = 0;
    while i < v.len()
        invariant
            i <= v@.len(),
            r@.len() == i,
            forall|j: int| 0 <= j < i ==> #[trigger] ser_slot_model(r@[j]) == slot_model(v@[j]),
        decreases v@.len() - i,
    {
        let e = match &v[i] {
            Some(f) => Some(encode_field(f)),
            None => None,
        };
        r.push(e);
        i = i + 1;
    }
    assert(ser_slots_model(r@) =~= slots_model(v@));
    r
}

fn encode_row(row: &Vec<Term>) -> (r: Vec<(SerializedField, SerializedIndex)>)
    ensures
        ser_row_model(r@) == row_model(row@),
{
    let mut r: Vec<(SerializedField, SerializedIndex)> = Vec::new();
    let mut i: usize = 0;
    while i < row.len()
        invariant
            i <= row@.len(),
            r@.len() == i,
            forall|j: int| 0 <= j < i ==> #[trigger] ser_term_model(r@[j]) == term_model(row@[j]),
        decreases row@.len() - i,
    {
        let t = &row[i];
        r.push((encode_field(&t.0), encode_index(t.1)));
        i = i + 1;
    }
    assert(ser_row_model(r@) =~= row_model(row@));
    r
}

fn encode_matrix(m: &Vec<Vec<Term>>) -> (r: Vec<Vec<(SerializedField, SerializedIndex)>>)
    ensures
        ser_matrix_model(r@) == matrix_model(m@),
{
    let mut r: Vec<Vec<(SerializedField, SerializedIndex)>> = Vec::new();
    let mut i: usize = 0;
    while i < m.len()
        invariant
            i <= m@.len(),
            r@.len() == i,
            forall|j: int| 0 <= j < i ==> #[trigger] ser_row_model(r@[j]@) == row_model(m@[j]@),
        decreases m@.len() - i,
    {
        r.push(encode_row(&m[i]));
        i = i + 1;
    }
    assert(ser_matrix_model(r@) =~= matrix_model(m@));
    r
}

fn decode_slots(v: &Vec<Option<SerializedField>>) -> (r: Result<Vec<Option<FieldElement>>, FieldError>)
    ensures
        r is Ok <==> slots_valid(ser_slots_model(v@)),
        r matches Ok(x) ==> slots_model(x@) == ser_slots_model(v@),
{
    let mut r: Vec<Option<FieldElement>> = Vec::new();
    let mut i: usize = 0;
    while i < v.len()
        invariant
            i <= v@.len(),
            r@.len() == i,
            forall|j: int| 0 <= j < i ==> #[trigger] slot_model(r@[j]) == ser_slot_model(v@[j]),
            forall|j: int|
                0 <= j < i && (#[trigger] v@[j]) is Some ==> canonical(ser_slot_model(v@[j])->0),
        decreases v@.len() - i,
    {
        let e = match &v[i] {
            Some(f) => match FieldElement::from_decimal(f.0.as_str()) {
                Ok(x) => Some(x),
                Err(e) => {
                    assert(ser_slots_model(v@)[i as int] == ser_slot_model(v@[i as int]));
                    return Err(e);
                },
            },
            None => None,
        };
        r.push(e);
        i = i + 1;
    }
    assert(slots_model(r@) =~= ser_slots_model(v@));
    assert forall|j: int|
        0 <= j < ser_slots_model(v@).len() && (#[trigger] ser_slots_model(v@)[j]) is Some implies canonical(
        ser_slots_model(v@)[j]->0) by {
        assert(v@[j] is Some);
    }
    Ok(r)
}

fn decode_row(row: &Vec<(SerializedField, SerializedIndex)>, num_public: usize, num_private: usize) -> (r:
    Result<Vec<Term>, SnapshotError>)
    ensures
        r is Ok <==> row_canonical(ser_row_model(row@)) && row_in_range(
            ser_row_model(row@),
            num_public as nat,
            num_private as nat,
        ),
        r matches Ok(x) ==> row_model(x@) == ser_row_model(row@),
        r matches Err(SnapshotError::Field(_)) ==> !row_canonical(ser_row_model(row@)),
        r matches Err(SnapshotError::Index) ==> !row_in_range(
            ser_row_model(row@),
            num_public as nat,
            num_private as nat,
        ),
        !(r matches Err(SnapshotError::Shape)),
{
    let ghost rm = ser_row_model(row@);
    let mut r: Vec<Term> = Vec::new();
    let mut i: usize = 0;
    while i < row.len()
        invariant
            i <= row@.len(),
            rm == ser_row_model(row@),
            r@.len() == i,
            forall|j: int| 0 <= j < i ==> #[trigger] term_model(r@[j]) == ser_term_model(row@[j]),
            forall|j: int| 0 <= j < i ==> canonical(#[trigger] rm[j].0),
            forall|j: int|
                0 <= j < i ==> index_in_range(#[trigger] rm[j].1, num_public as nat, num_private as nat),
        decreases row@.len() - i,
    {
        let t = &row[i];
        assert(rm[i as int] == ser_term_model(row@[i as int]));
        let coeff = match FieldElement::from_decimal(t.0.0.as_str()) {
            Ok(x) => x,
            Err(e) => {
                return Err(SnapshotError::Field(e));
            },
        };
        let index = decode_index(t.1);
        let fits = match index {
            Index::One => true,
            Index::Public(n) => n < num_public,
            Index::Private(n) => n < num_private,
        };
        if !fits {
            return Err(SnapshotError::Index);
        }
        r.push((coeff, index));
        i = i + 1;
    }
    assert(row_model(r@) =~= ser_row_model(row@));
    Ok(r)
}

fn decode_matrix(m: &Vec<Vec<(SerializedField, SerializedIndex)>>, num_public: usize, num_private: usize) -> (r:
    Result<Vec<Vec<Term>>, SnapshotError>)
    ensures
        r is Ok <==> matrix_canonical(ser_matrix_model(m@)) && matrix_in_range(
            ser_matrix_model(m@),
            num_public as nat,
            num_private as nat,
        ),
        r matches Ok(x) ==> matrix_model(x@) == ser_matrix_model(m@),
        r matches Err(SnapshotError::Field(_)) ==> !matrix_canonical(ser_matrix_model(m@)),
        r matches Err(SnapshotError::Index) ==> !matrix_in_range(
            ser_matrix_model(m@),
            num_public as nat,
            num_private as nat,
        ),
        !(r matches Err(SnapshotError::Shape)),
{
    let ghost mm = ser_matrix_model(m@);
    let mut r: Vec<Vec<Term>> = Vec::new();
    let mut i: usize = 0;
    while i < m.len()
        invariant
            i <= m@.len(),
            mm == ser_matrix_model(m@),
            r@.len() == i,
            forall|j: int| 0 <= j < i ==> #[trigger] row_model(r@[j]@) == ser_row_model(m@[j]@),
            forall|j: int| 0 <= j < i ==> row_canonical(#[trigger] mm[j]),
            forall|j: int|
                0 <= j < i ==> row_in_range(#[trigger] mm[j], num_public as nat, num_private as nat),
        decreases m@.len() - i,
    {
        assert(mm[i as int] == ser_row_model(m@[i as int]@));
        let row = decode_row(&m[i], num_public, num_private);
        match row {
            Ok(x) => {
                r.push(x);
            },
            Err(e) => {
                return Err(e);
            },
        }
        i = i + 1;
    }
    assert(matrix_model(r@) =~= ser_matrix_model(m@));
    Ok(r)
}

impl SerializedCircuit {
    /// The snapshot of `synthesizer`: its three counts, both slot tables
    /// slot by slot, and every row term by term.
    pub fn from_synthesizer(synthesizer: &CircuitSynthesizer) -> (r: SerializedCircuit)
        requires
            synthesizer.wf(),
        ensures
            r@ == encode(synthesizer@),
    {
        let r = SerializedCircuit {
            num_public_variables: synthesizer.public_variables.len(),
            num_private_variables: synthesizer.private_variables.len(),
            num_constraints: synthesizer.at.len(),
            public_variables: encode_slots(&synthesizer.public_variables),
            private_variables: encode_slots(&synthesizer.private_variables),
            at: encode_matrix(&synthesizer.at),
            bt: encode_matrix(&synthesizer.bt),
            ct: encode_matrix(&synthesizer.ct),
        };
        assert(r@.at == synthesizer@.at);
        r
    }
}

impl CircuitSynthesizer {
    /// Rebuilds the synthesizer that `serialized` stands for. Fails with
    /// `Shape` exactly when the counts disagree with the tables; otherwise
    /// with `Field` where some value or coefficient is not a canonical field
    /// element, and with `Index` where some row names a missing variable.
    pub fn from_serialized(serialized: &SerializedCircuit) -> (r: Result<CircuitSynthesizer, SnapshotError>)
        ensures
            r is Ok <==> decodable(serialized@),
            r matches Ok(c) ==> c.wf() && c@ == decode(serialized@) && c.scopes().len() == 0,
            r matches Err(SnapshotError::Shape) <==> !shape_ok(serialized@),
            r matches Err(SnapshotError::Field(_)) ==> !fields_ok(serialized@),
            r matches Err(SnapshotError::Index) ==> !indices_ok(serialized@),
    {
        let n = serialized.num_constraints;
        if serialized.public_variables.len() != serialized.num_public_variables
            || serialized.private_variables.len() != serialized.num_private_variables
            || serialized.at.len() != n || serialized.bt.len() != n || serialized.ct.len() != n {
            return Err(SnapshotError::Shape);
        }
        let public_variables = match decode_slots(&serialized.public_variables) {
            Ok(x) => x,
            Err(e) => {
                return Err(SnapshotError::Field(e));
            },
        };
        let private_variables = match decode_slots(&serialized.private_variables) {
            Ok(x) => x,
            Err(e) => {
                return Err(SnapshotError::Field(e));
            },
        };
        let np = serialized.num_public_variables;
        let nq = serialized.num_private_variables;
        let at = decode_matrix(&serialized.at, np, nq);
        let at = match at {
            Ok(x) => x,
            Err(e) => {
                return Err(e);
            },
        };
        let bt = decode_matrix(&serialized.bt, np, nq);
        let bt = match bt {
            Ok(x) => x,
            Err(e) => {
                return Err(e);
            },
        };
        let ct = decode_matrix(&serialized.ct, np, nq);
        let ct = match ct {
            Ok(x) => x,
            Err(e) => {
                return Err(e);
            },
        };
        let c = CircuitSynthesizer { public_variables, private_variables, at, bt, ct, namespaces: Vec::new() };
        proof {
            assert(c.scopes() =~= Seq::<Seq<char>>::empty());
            let m = c@;
            assert(m == decode(serialized@));
            assert forall|i: int| 0 <= i < m.at.len() implies row_valid(
                #[trigger] m.at[i],
                m.public.len(),
                m.private.len(),
            ) by {
                assert(row_canonical(m.at[i]));
                assert(row_in_range(m.at[i], np as nat, nq as nat));
            }
            assert forall|i: int| 0 <= i < m.bt.len() implies row_valid(
                #[trigger] m.bt[i],
                m.public.len(),
                m.private.len(),
            ) by {
                assert(row_canonical(m.bt[i]));
                assert(row_in_range(m.bt[i], np as nat, nq as nat));
            }
            assert forall|i: int| 0 <= i < m.ct.len() implies row_valid(
                #[trigger] m.ct[i],
                m.public.len(),
                m.private.len(),
            ) by {
                assert(row_canonical(m.ct[i]));
                assert(row_in_range(m.ct[i], np as nat, nq as nat));
            }
        }
        Ok(c)
    }
}

/// Round trip: the snapshot of any well-formed synthesizer decodes, and
/// decodes back to the same slots (absent ones included) and the same rows,
/// so counts and every row's terms are kept.
pub proof fn lemma_round_trip(s: SynthesizerModel)
    requires
        s.wf(),
    ensures
        decodable(encode(s)),
        decode(encode(s)) == s,
        decode(encode(s)).wf(),
{
    let e = encode(s);
    assert forall|i: int| 0 <= i < e.at.len() implies row_canonical(#[trigger] e.at[i]) && row_in_range(
        e.at[i],
        e.public.len(),
        e.private.len(),
    ) by {
        assert(row_valid(s.at[i], s.public.len(), s.private.len()));
    }
    assert forall|i: int| 0 <= i < e.bt.len() implies row_canonical(#[trigger] e.bt[i]) && row_in_range(
        e.bt[i],
        e.public.len(),
        e.private.len(),
    ) by {
        assert(row_valid(s.bt[i], s.public.len(), s.private.len()));
    }
    assert forall|i: int| 0 <= i < e.ct.len() implies row_canonical(#[trigger] e.ct[i]) && row_in_range(
        e.ct[i],
        e.public.len(),
        e.private.len(),
    ) by {
        assert(row_valid(s.ct[i], s.public.len(), s.private.len()));
    }
}

/// The other way round: a snapshot that decodes is given back, count for
/// count, slot for slot and row for row, by encoding what it decoded to.
pub proof fn lemma_snapshot_round_trip(t: SnapshotModel)
    requires
        decodable(t),
    ensures
        decode(t).wf(),
        encode(decode(t)) == t,
{
    let d = decode(t);
    assert forall|i: int| 0 <= i < d.at.len() implies row_valid(#[trigger] d.at[i], d.public.len(), d.private.len()) by {
        assert(row_canonical(t.at[i]));
        assert(row_in_range(t.at[i], t.public.len(), t.private.len()));
    }
    assert forall|i: int| 0 <= i < d.bt.len() implies row_valid(#[trigger] d.bt[i], d.public.len(), d.private.len()) by {
        assert(row_canonical(t.bt[i]));
        assert(row_in_range(t.bt[i], t.public.len(), t.private.len()));
    }
    assert forall|i: int| 0 <= i < d.ct.len() implies row_valid(#[trigger] d.ct[i], d.public.len(), d.private.len()) by {
        assert(row_canonical(t.ct[i]));
        assert(row_in_range(t.ct[i], t.public.len(), t.private.len()));
    }
}

} // verus!
