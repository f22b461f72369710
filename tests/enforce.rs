use leo_synthesizer::{
    conditionally_select, BooleanValue, Circuit, CircuitMember, CircuitSynthesizer, ConstrainedProgram, ConstrainedValue,
    Expression, ExpressionError, ExpressionNode, FieldElement, GadgetError, Index, Program, SerializedCircuit,
    SerializedField, SerializedIndex, Span, Visibility,
};

const MINUS_ONE: &str = "8444461749428370424248824938781546531375899335154063827935233455917409239040";

fn fe(s: &str) -> FieldElement {
    FieldElement::from_decimal(s).unwrap()
}

fn node(expression: Expression, line: usize, start: usize) -> ExpressionNode {
    ExpressionNode { expression, span: Span { line, start } }
}

fn ternary_program(condition: Expression, first: Expression, second: Expression) -> ConstrainedProgram {
    ConstrainedProgram::new(Program {
        circuits: vec![],
        nodes: vec![
            node(condition, 1, 4),
            node(first, 1, 10),
            node(second, 1, 20),
            node(Expression::Conditional(0, 1, 2), 1, 1),
        ],
    })
}

fn digits_at(cs: &CircuitSynthesizer, v: &ConstrainedValue) -> String {
    match v {
        ConstrainedValue::Field(i) | ConstrainedValue::Boolean(BooleanValue::Allocated(i)) => {
            cs.value(*i).unwrap().to_decimal()
        },
        other => panic!("not a scalar: {:?}", other),
    }
}

fn rows(m: &Vec<Vec<(SerializedField, SerializedIndex)>>) -> Vec<Vec<(String, SerializedIndex)>> {
    m.iter().map(|r| r.iter().map(|(f, i)| (f.0.clone(), *i)).collect()).collect()
}

#[test]
fn ternary_with_true_condition_is_the_then_value() {
    let program = ternary_program(
        Expression::Boolean(true),
        Expression::Field(fe("7")),
        Expression::Field(fe("8")),
    );
    let mut cs = CircuitSynthesizer::new();
    let v = program.enforce_expression(&mut cs, 3).unwrap();
    assert!(matches!(v, ConstrainedValue::Field(_)));
    assert_eq!(digits_at(&cs, &v), "7");

    let mut parts = CircuitSynthesizer::new();
    for id in 0..3 {
        program.enforce_expression(&mut parts, id).unwrap();
    }
    let (p, q, c) = parts.counts();
    assert_eq!(parts.counts(), (0, 2, 0));
    assert_eq!(cs.counts(), (p, q + 1, c + 1));
    assert_eq!(cs.counts(), (0, 3, 1));
}

#[test]
fn ternary_with_false_condition_is_the_else_value() {
    let program = ternary_program(
        Expression::Boolean(false),
        Expression::Field(fe("7")),
        Expression::Field(fe("8")),
    );
    let mut cs = CircuitSynthesizer::new();
    let v = program
        .enforce_conditional_expression(&mut cs, 0, 1, 2, &Span { line: 1, start: 1 })
        .unwrap();
    assert_eq!(digits_at(&cs, &v), "8");
    assert_eq!(cs.counts(), (0, 3, 1));
}

#[test]
fn ternary_over_booleans_is_one_select() {
    let program = ternary_program(Expression::Boolean(false), Expression::Boolean(true), Expression::Boolean(false));
    let mut cs = CircuitSynthesizer::new();
    let v = program.enforce_expression(&mut cs, 3).unwrap();
    assert!(matches!(v, ConstrainedValue::Boolean(_)));
    assert_eq!(digits_at(&cs, &v), "0");
    assert_eq!(cs.counts(), (0, 1, 1));
}

#[test]
fn select_constraint_is_condition_times_difference() {
    let program = ternary_program(
        Expression::Boolean(true),
        Expression::Field(fe("7")),
        Expression::Field(fe("8")),
    );
    let mut cs = CircuitSynthesizer::new();
    program.enforce_expression(&mut cs, 3).unwrap();
    let s = SerializedCircuit::from_synthesizer(&cs);
    let one = "1".to_string();
    assert_eq!(rows(&s.at), vec![vec![(one.clone(), SerializedIndex::One)]]);
    assert_eq!(
        rows(&s.bt)[0],
        vec![(one.clone(), SerializedIndex::Private(0)), (MINUS_ONE.to_string(), SerializedIndex::Private(1))]
    );
    assert_eq!(
        rows(&s.ct)[0],
        vec![(one, SerializedIndex::Private(2)), (MINUS_ONE.to_string(), SerializedIndex::Private(1))]
    );
}

#[test]
fn ternary_with_witness_condition_adds_its_booleanity_row() {
    let program = ternary_program(
        Expression::PrivateBoolean(true),
        Expression::Field(fe("7")),
        Expression::Field(fe("8")),
    );
    let mut cs = CircuitSynthesizer::new();
    let v = program.enforce_expression(&mut cs, 3).unwrap();
    assert_eq!(digits_at(&cs, &v), "7");
    assert_eq!(cs.counts(), (0, 4, 2));
}

fn select_with_witness(bit: &str) -> (CircuitSynthesizer, String) {
    let mut cs = CircuitSynthesizer::new();
    let c = cs.allocate(Visibility::Private, Some(fe(bit)));
    let a = cs.allocate(Visibility::Private, Some(fe("5")));
    let b = cs.allocate(Visibility::Public, Some(fe("6")));
    let r = conditionally_select(
        &mut cs,
        BooleanValue::Allocated(c),
        &ConstrainedValue::Field(a),
        &ConstrainedValue::Field(b),
    )
    .unwrap();
    let d = digits_at(&cs, &r);
    (cs, d)
}

#[test]
fn witness_condition_shape_does_not_depend_on_its_value() {
    let (one, d1) = select_with_witness("1");
    let (zero, d0) = select_with_witness("0");
    assert_eq!(d1, "5");
    assert_eq!(d0, "6");
    assert_eq!(one.counts(), zero.counts());
    let (s1, s0) = (SerializedCircuit::from_synthesizer(&one), SerializedCircuit::from_synthesizer(&zero));
    assert_eq!(rows(&s1.at), rows(&s0.at));
    assert_eq!(rows(&s1.bt), rows(&s0.bt));
    assert_eq!(rows(&s1.ct), rows(&s0.ct));
}

#[test]
fn ternary_rejects_non_boolean_condition() {
    let program = ternary_program(
        Expression::Field(fe("5")),
        Expression::Field(fe("7")),
        Expression::Field(fe("8")),
    );
    let mut cs = CircuitSynthesizer::new();
    match program.enforce_expression(&mut cs, 3) {
        Err(ExpressionError::ConditionNotBoolean(span)) => assert_eq!(span, Span { line: 1, start: 4 }),
        other => panic!("unexpected {:?}", other),
    }
    assert_eq!(cs.counts(), (0, 1, 0));
}

#[test]
fn ternary_rejects_branches_of_different_shapes() {
    let program = ternary_program(Expression::Boolean(true), Expression::Field(fe("7")), Expression::Boolean(true));
    let mut cs = CircuitSynthesizer::new();
    match program.enforce_expression(&mut cs, 3) {
        Err(ExpressionError::GadgetFailure(e, span)) => {
            assert_eq!(e, GadgetError::ShapeMismatch);
            assert_eq!(span, Span { line: 1, start: 1 });
        },
        other => panic!("unexpected {:?}", other),
    }
}

#[test]
fn ternary_rejects_unknown_branch() {
    let program = ConstrainedProgram::new(Program {
        circuits: vec![],
        nodes: vec![node(Expression::Boolean(true), 1, 1), node(Expression::Conditional(0, 0, 9), 1, 2)],
    });
    let mut cs = CircuitSynthesizer::new();
    match program.enforce_expression(&mut cs, 1) {
        Err(ExpressionError::UnknownNode(span)) => assert_eq!(span, Span { line: 1, start: 2 }),
        other => panic!("unexpected {:?}", other),
    }
}

#[test]
fn select_rejects_a_variable_that_is_not_there() {
    let mut cs = CircuitSynthesizer::new();
    let c = cs.allocate(Visibility::Private, Some(fe("1")));
    let x = cs.allocate(Visibility::Private, Some(fe("3")));
    let r = conditionally_select(
        &mut cs,
        BooleanValue::Allocated(c),
        &ConstrainedValue::Field(x),
        &ConstrainedValue::Field(Index::Public(0)),
    );
    assert_eq!(r.err(), Some(GadgetError::MissingVariable));
    assert_eq!(cs.counts(), (0, 2, 0));
}

fn point_circuit() -> Circuit {
    Circuit {
        name: "Point".to_string(),
        members: vec![
            ("x".to_string(), CircuitMember::Variable),
            ("y".to_string(), CircuitMember::Variable),
            ("double".to_string(), CircuitMember::Function),
        ],
    }
}

fn point_program() -> ConstrainedProgram {
    ConstrainedProgram::new(Program {
        circuits: vec![point_circuit()],
        nodes: vec![node(Expression::Field(fe("1")), 3, 5), node(Expression::Field(fe("2")), 3, 9)],
    })
}

#[test]
fn circuit_instance_keeps_member_order() {
    let program = point_program();
    let mut cs = CircuitSynthesizer::new();
    let values = vec![("y".to_string(), 1), ("x".to_string(), 0)];
    let v = program.enforce_circuit(&mut cs, 0, &values, &Span { line: 3, start: 1 }).unwrap();
    match v {
        ConstrainedValue::CircuitExpression(c, members) => {
            assert_eq!(c, 0);
            assert_eq!(members.len(), 2);
            assert_eq!(members[0].0, "y");
            assert_eq!(digits_at(&cs, &members[0].1), "2");
            assert_eq!(members[1].0, "x");
            assert_eq!(digits_at(&cs, &members[1].1), "1");
        },
        other => panic!("unexpected {:?}", other),
    }
    assert_eq!(cs.counts(), (0, 2, 0));
}

#[test]
fn circuit_instance_rejects_function_member() {
    let program = point_program();
    let mut cs = CircuitSynthesizer::new();
    let values = vec![("x".to_string(), 0), ("double".to_string(), 1)];
    match program.enforce_circuit(&mut cs, 0, &values, &Span { line: 3, start: 1 }) {
        Err(ExpressionError::NotADataMember(name, span)) => {
            assert_eq!(name, "double");
            assert_eq!(span, Span { line: 3, start: 1 });
        },
        other => panic!("unexpected {:?}", other),
    }
}

fn instance_ternary(condition: bool) -> (CircuitSynthesizer, ConstrainedValue) {
    let init = |x: usize, y: usize| Expression::CircuitInit(0, vec![("x".to_string(), x), ("y".to_string(), y)]);
    let program = ConstrainedProgram::new(Program {
        circuits: vec![point_circuit()],
        nodes: vec![
            node(Expression::Boolean(condition), 1, 1),
            node(Expression::Field(fe("1")), 1, 2),
            node(Expression::Field(fe("2")), 1, 3),
            node(init(1, 2), 1, 4),
            node(Expression::Field(fe("3")), 1, 5),
            node(Expression::Field(fe("4")), 1, 6),
            node(init(4, 5), 1, 7),
            node(Expression::Conditional(0, 3, 6), 1, 8),
        ],
    });
    let mut cs = CircuitSynthesizer::new();
    let v = program.enforce_expression(&mut cs, 7).unwrap();
    (cs, v)
}

#[test]
fn ternary_selects_circuit_instances_member_by_member() {
    for (condition, expected) in [(true, ["1", "2"]), (false, ["3", "4"])] {
        let (cs, v) = instance_ternary(condition);
        match v {
            ConstrainedValue::CircuitExpression(c, members) => {
                assert_eq!(c, 0);
                assert_eq!(members[0].0, "x");
                assert_eq!(digits_at(&cs, &members[0].1), expected[0]);
                assert_eq!(members[1].0, "y");
                assert_eq!(digits_at(&cs, &members[1].1), expected[1]);
            },
            other => panic!("unexpected {:?}", other),
        }
        assert_eq!(cs.counts(), (0, 6, 2));
    }
}

#[test]
fn each_select_opens_a_labelled_scope() {
    let program = ternary_program(
        Expression::Boolean(true),
        Expression::Field(fe("7")),
        Expression::Field(fe("8")),
    );
    let mut cs = CircuitSynthesizer::new();
    program.enforce_expression(&mut cs, 3).unwrap();
    assert_eq!(cs.namespaces(), vec!["select field private 0 or field private 1 1:1".to_string()]);
    let back = CircuitSynthesizer::from_serialized(&SerializedCircuit::from_synthesizer(&cs)).unwrap();
    assert!(back.namespaces().is_empty());
    assert_eq!(back.counts(), cs.counts());
}

#[test]
fn select_label_writes_numbers_in_decimal() {
    let program = ConstrainedProgram::new(Program {
        circuits: vec![],
        nodes: vec![
            node(Expression::Boolean(false), 1, 1),
            node(Expression::Field(fe("7")), 1, 2),
            node(Expression::Field(fe("8")), 1, 3),
            node(Expression::Conditional(0, 1, 2), 120, 3057),
        ],
    });
    let mut cs = CircuitSynthesizer::new();
    for _ in 0..10 {
        cs.allocate(Visibility::Private, None);
    }
    program.enforce_expression(&mut cs, 3).unwrap();
    assert_eq!(cs.namespaces(), vec!["select field private 10 or field private 11 120:3057".to_string()]);
}
