use leo_synthesizer::{
    check_canonical, CircuitSynthesizer, FieldElement, FieldError, Index, SerializedCircuit, SerializedField, SerializedIndex,
    SnapshotError, Visibility,
};

const MODULUS: &str = "8444461749428370424248824938781546531375899335154063827935233455917409239041";

fn fe(s: &str) -> FieldElement {
    FieldElement::from_decimal(s).unwrap()
}

fn digits(f: &Option<FieldElement>) -> Option<String> {
    f.as_ref().map(|x| x.to_decimal())
}

fn row_digits(row: &Vec<(SerializedField, SerializedIndex)>) -> Vec<(String, SerializedIndex)> {
    row.iter().map(|(f, i)| (f.0.clone(), *i)).collect()
}

#[test]
fn field_accepts_canonical_digits() {
    assert_eq!(fe("0").to_decimal(), "0");
    assert_eq!(fe("123").to_decimal(), "123");
    let below = "8444461749428370424248824938781546531375899335154063827935233455917409239040";
    assert_eq!(fe(below).to_decimal(), below);
}

#[test]
fn field_rejects_the_modulus_as_not_canonical() {
    assert_eq!(FieldElement::from_decimal(MODULUS).unwrap_err(), FieldError::NotCanonical);
}

#[test]
fn field_rejects_non_numbers() {
    assert_eq!(FieldElement::from_decimal("").unwrap_err(), FieldError::NotANumber);
    assert_eq!(FieldElement::from_decimal("12a").unwrap_err(), FieldError::NotANumber);
    assert_eq!(FieldElement::from_decimal("007").unwrap_err(), FieldError::NotANumber);
}

#[test]
fn field_constants() {
    assert_eq!(FieldElement::one().to_decimal(), "1");
    assert_eq!(
        FieldElement::minus_one().to_decimal(),
        "8444461749428370424248824938781546531375899335154063827935233455917409239040"
    );
}

#[test]
fn allocate_assigns_fresh_indices() {
    let mut cs = CircuitSynthesizer::new();
    assert_eq!(cs.allocate(Visibility::Public, Some(fe("1"))), Index::Public(0));
    assert_eq!(cs.allocate(Visibility::Private, Some(fe("2"))), Index::Private(0));
    assert_eq!(cs.allocate(Visibility::Private, None), Index::Private(1));
    assert_eq!(cs.allocate(Visibility::Public, Some(fe("3"))), Index::Public(1));
    assert_eq!(cs.counts(), (2, 2, 0));
    assert_eq!(digits(&cs.value(Index::Public(1))), Some("3".to_string()));
    assert_eq!(digits(&cs.value(Index::Private(1))), None);
}

#[test]
fn enforce_appends_one_row_to_each_matrix() {
    let mut cs = CircuitSynthesizer::new();
    let x = cs.allocate(Visibility::Private, Some(fe("3")));
    let y = cs.allocate(Visibility::Private, Some(fe("9")));
    cs.enforce(vec![(fe("1"), x)], vec![(fe("1"), x)], vec![(fe("1"), y)]);
    cs.enforce(vec![], vec![], vec![]);
    assert_eq!(cs.num_constraints(), 2);
    assert_eq!(cs.counts(), (0, 2, 2));
    let s = SerializedCircuit::from_synthesizer(&cs);
    assert_eq!(row_digits(&s.ct[0]), vec![("1".to_string(), SerializedIndex::Private(1))]);
    assert!(s.at[1].is_empty());
}

#[test]
fn index_stability_under_removal() {
    let mut cs = CircuitSynthesizer::new();
    let values = ["10", "11", "12", "13", "14"];
    let mut vars = Vec::new();
    for v in values.iter() {
        vars.push(cs.allocate(Visibility::Private, Some(fe(v))));
    }
    cs.remove(vars[2]);
    let v5 = cs.allocate(Visibility::Private, Some(fe("15")));
    assert_eq!(v5, Index::Private(5));
    for (i, v) in values.iter().enumerate() {
        assert_eq!(vars[i], Index::Private(i));
        if i == 2 {
            assert!(!cs.is_present(vars[i]));
        } else {
            assert_eq!(digits(&cs.value(vars[i])), Some(v.to_string()));
        }
    }
    let back = CircuitSynthesizer::from_serialized(&SerializedCircuit::from_synthesizer(&cs)).unwrap();
    assert_eq!(back.counts(), (0, 6, 0));
    assert!(!back.is_present(Index::Private(2)));
    for (i, v) in values.iter().enumerate() {
        if i != 2 {
            assert_eq!(digits(&back.value(Index::Private(i))), Some(v.to_string()));
        }
    }
    assert_eq!(digits(&back.value(v5)), Some("15".to_string()));
}

#[test]
fn empty_circuit_round_trip() {
    let cs = CircuitSynthesizer::new();
    let s = SerializedCircuit::from_synthesizer(&cs);
    assert_eq!(s.num_public_variables, 0);
    assert_eq!(s.num_private_variables, 0);
    assert_eq!(s.num_constraints, 0);
    assert!(s.public_variables.is_empty() && s.private_variables.is_empty());
    assert!(s.at.is_empty() && s.bt.is_empty() && s.ct.is_empty());
    let back = CircuitSynthesizer::from_serialized(&s).unwrap();
    assert_eq!(back.counts(), (0, 0, 0));
}

#[test]
fn round_trip_keeps_rows_and_slots() {
    let mut cs = CircuitSynthesizer::new();
    let p = cs.allocate(Visibility::Public, Some(fe("5")));
    let q = cs.allocate(Visibility::Private, Some(fe("6")));
    let r = cs.allocate(Visibility::Private, None);
    cs.enforce(vec![(fe("2"), p), (fe("3"), q)], vec![(fe("1"), r)], vec![]);
    cs.remove(p);
    let s = SerializedCircuit::from_synthesizer(&cs);
    let back = CircuitSynthesizer::from_serialized(&s).unwrap();
    assert_eq!(back.counts(), cs.counts());
    let t = SerializedCircuit::from_synthesizer(&back);
    for (x, y) in s.at.iter().zip(t.at.iter()).chain(s.bt.iter().zip(t.bt.iter())).chain(s.ct.iter().zip(t.ct.iter())) {
        assert_eq!(row_digits(x), row_digits(y));
    }
    assert_eq!(s.public_variables, t.public_variables);
    assert_eq!(s.private_variables, t.private_variables);
    assert_eq!(t.public_variables, vec![None]);
    assert_eq!(t.private_variables, vec![Some(SerializedField("6".to_string())), None]);
    assert_eq!(
        row_digits(&t.at[0]),
        vec![("2".to_string(), SerializedIndex::Public(0)), ("3".to_string(), SerializedIndex::Private(0))]
    );
}

fn one_row_snapshot() -> SerializedCircuit {
    SerializedCircuit {
        num_public_variables: 1,
        num_private_variables: 1,
        num_constraints: 1,
        public_variables: vec![Some(SerializedField("4".to_string()))],
        private_variables: vec![None],
        at: vec![vec![(SerializedField("1".to_string()), SerializedIndex::Public(0))]],
        bt: vec![vec![(SerializedField("1".to_string()), SerializedIndex::Private(0))]],
        ct: vec![vec![]],
    }
}

#[test]
fn decode_accepts_a_valid_snapshot() {
    let cs = CircuitSynthesizer::from_serialized(&one_row_snapshot()).unwrap();
    assert_eq!(cs.counts(), (1, 1, 1));
    assert_eq!(digits(&cs.value(Index::Public(0))), Some("4".to_string()));
}

#[test]
fn decode_rejects_wrong_counts() {
    let mut s = one_row_snapshot();
    s.num_constraints = 2;
    assert_eq!(CircuitSynthesizer::from_serialized(&s).err(), Some(SnapshotError::Shape));
    let mut s = one_row_snapshot();
    s.num_private_variables = 0;
    assert_eq!(CircuitSynthesizer::from_serialized(&s).err(), Some(SnapshotError::Shape));
}

#[test]
fn decode_rejects_a_value_outside_the_field() {
    let mut s = one_row_snapshot();
    s.public_variables[0] = Some(SerializedField(MODULUS.to_string()));
    assert_eq!(
        CircuitSynthesizer::from_serialized(&s).err(),
        Some(SnapshotError::Field(FieldError::NotCanonical))
    );
}

#[test]
fn decode_rejects_a_coefficient_that_is_no_number() {
    let mut s = one_row_snapshot();
    s.bt[0][0].0 = SerializedField("x1".to_string());
    assert_eq!(
        CircuitSynthesizer::from_serialized(&s).err(),
        Some(SnapshotError::Field(FieldError::NotANumber))
    );
}

#[test]
fn decode_rejects_a_missing_variable() {
    let mut s = one_row_snapshot();
    s.ct[0].push((SerializedField("1".to_string()), SerializedIndex::Private(1)));
    assert_eq!(CircuitSynthesizer::from_serialized(&s).err(), Some(SnapshotError::Index));
}

#[test]
fn canonical_check_follows_the_reduced_digits() {
    assert_eq!(check_canonical("5", &Some("5".to_string())), Ok(()));
    assert_eq!(check_canonical("x", &None), Err(FieldError::NotANumber));
    assert_eq!(check_canonical(MODULUS, &Some("0".to_string())), Err(FieldError::NotCanonical));
}

#[test]
fn constant_one_is_always_there_and_round_trips() {
    let mut cs = CircuitSynthesizer::new();
    assert!(cs.is_present(Index::One));
    assert_eq!(digits(&cs.value(Index::One)), Some("1".to_string()));
    cs.enforce(vec![(fe("1"), Index::One)], vec![(fe("1"), Index::One)], vec![(fe("1"), Index::One)]);
    let s = SerializedCircuit::from_synthesizer(&cs);
    assert_eq!(row_digits(&s.at[0]), vec![("1".to_string(), SerializedIndex::One)]);
    let back = CircuitSynthesizer::from_serialized(&s).unwrap();
    assert_eq!(back.counts(), (0, 0, 1));
}
