use vstd::prelude::*;

use crate::field::{FieldElement, FIELD_MINUS_ONE_DIGITS};
use crate::synthesizer::{index_in_range, row_model, slot_at, slot_model, CircuitSynthesizer, Index, SynthesizerModel, Visibility};
use crate::value::{lemma_members_model, BooleanValue, members_model, ConstrainedCircuitMember, ConstrainedValue, Span, ValueModel};

verus! {

/// What a member of a circuit definition is.
#[derive(Debug, Clone, Copy, PartialEq, Eq, Structural)]
pub enum CircuitMember {
    /// A data member, which an instance supplies a value for.
    Variable,
    /// A function member.
    Function,
}

/// A circuit definition: its name and its members, in declaration order.
#[derive(Debug)]
pub struct Circuit {
    pub name: String,
    pub members: Vec<(String, CircuitMember)>,
}

/// A type-checked expression; sub-expressions are handles into the
/// program's node arena.
#[derive(Debug)]
pub enum Expression {
    /// A boolean constant.
    Boolean(bool),
    /// A boolean supplied as a private witness.
    PrivateBoolean(bool),
    /// A field element supplied as a private witness.
    Field(FieldElement),
    /// `condition ? first : second`.
    Conditional(usize, usize, usize),
    /// An instance of the circuit with this handle, with a value expression
    /// for each named member.
    CircuitInit(usize, Vec<(String, usize)>),
}

/// An expression with its source location.
#[derive(Debug)]
pub struct ExpressionNode {
    pub expression: Expression,
    pub span: Span,
}

/// The semantic graph that enforcement walks: circuit definitions and an
/// arena of expression nodes, each naming only nodes before it.
#[derive(Debug)]
pub struct Program {
    pub circuits: Vec<Circuit>,
    pub nodes: Vec<ExpressionNode>,
}

/// Why the select primitive rejected its operands.
#[derive(Debug, Clone, Copy, PartialEq, Eq, Structural)]
pub enum GadgetError {
    /// The two branches differ in kind, circuit or member names.
    ShapeMismatch,
    /// An operand names a variable that the synthesizer does not hold.
    MissingVariable,
    /// The synthesizer has no room for another variable.
    NoRoom,
}

/// Why an expression cannot be enforced.
#[derive(Debug)]
pub enum ExpressionError {
    /// The condition of a conditional is not a boolean (structural
    /// mismatch); the span is the condition's.
    ConditionNotBoolean(Span),
    /// A circuit instance supplies a value for a member that is not a data
    /// member (structural mismatch).
    NotADataMember(String, Span),
    /// The select primitive, or the allocation of a witness, failed for
    /// the given cause.
    GadgetFailure(GadgetError, Span),
    /// A handle names no node of the program, or no circuit.
    UnknownNode(Span),
}

pub enum ErrorModel {
    ConditionNotBoolean(Span),
    NotADataMember(Seq<char>, Span),
    GadgetFailure(GadgetError, Span),
    UnknownNode(Span),
}

pub type Outcome = (Result<ValueModel, ErrorModel>, SynthesizerModel);

pub type SelectOutcome = (Result<ValueModel, GadgetError>, SynthesizerModel);

impl ExpressionError {
    pub open spec fn model(self) -> ErrorModel {
        match self {
            ExpressionError::ConditionNotBoolean(s) => ErrorModel::ConditionNotBoolean(s),
            ExpressionError::NotADataMember(n, s) => ErrorModel::NotADataMember(n@, s),
            ExpressionError::GadgetFailure(e, s) => ErrorModel::GadgetFailure(e, s),
            ExpressionError::UnknownNode(s) => ErrorModel::UnknownNode(s),
        }
    }
}

pub open spec fn result_model(r: Result<ConstrainedValue, ExpressionError>) -> Result<ValueModel, ErrorModel> {
    match r {
        Ok(v) => Ok(v.model()),
        Err(e) => Err(e.model()),
    }
}

pub open spec fn select_result_model(r: Result<ConstrainedValue, GadgetError>) -> Result<ValueModel, GadgetError> {
    match r {
        Ok(v) => Ok(v.model()),
        Err(e) => Err(e),
    }
}

impl Program {
    /// Every node names only earlier nodes and existing circuits, and every
    /// field constant is a valid field element.
    pub open spec fn wf(&self) -> bool {
        forall|id: int| 0 <= id < self.nodes@.len() ==> node_wf(self, id, #[trigger] self.nodes@[id])
    }
}

pub open spec fn node_wf(p: &Program, id: int, n: ExpressionNode) -> bool {
    match n.expression {
        Expression::Field(f) => f.valid(),
        _ => true,
    }
}

/// The declared kind of the first member called `name`.
pub open spec fn member_kind(ms: Seq<(String, CircuitMember)>, name: Seq<char>) -> Option<CircuitMember>
    decreases ms.len(),
{
    if ms.len() == 0 {
        None
    } else if ms[0].0@ == name {
        Some(ms[0].1)
    } else {
        member_kind(ms.drop_first(), name)
    }
}

/// A select operand as a linear combination of at most one variable:
/// `Some(i)` is `1 * i`, `None` is zero.
pub type Operand = Option<Index>;

/// A boolean as an operand: constant true is the constant one, constant
/// false is zero.
pub open spec fn bool_operand(b: BooleanValue) -> Operand {
    match b {
        BooleanValue::Constant(true) => Some(Index::One),
        BooleanValue::Constant(false) => None,
        BooleanValue::Allocated(i) => Some(i),
    }
}

/// A scalar value as an operand.
pub open spec fn operand_of(v: ValueModel) -> Operand {
    match v {
        ValueModel::Field(i) => Some(i),
        ValueModel::Boolean(b) => bool_operand(b),
        _ => None,
    }
}

/// The value of an operand in `m`.
pub open spec fn operand_value(m: SynthesizerModel, o: Operand) -> Option<Seq<char>> {
    match o {
        Some(i) => slot_at(m, i),
        None => Some("0"@),
    }
}

pub open spec fn operand_in_range(m: SynthesizerModel, o: Operand) -> bool {
    match o {
        Some(i) => index_in_range(i, m.public.len(), m.private.len()),
        None => true,
    }
}

/// The row `x - y`.
pub open spec fn difference_row(x: Operand, y: Operand) -> Seq<(Seq<char>, Index)> {
    let plus = match x {
        Some(i) => seq![("1"@, i)],
        None => Seq::empty(),
    };
    let minus = match y {
        Some(j) => seq![(FIELD_MINUS_ONE_DIGITS@, j)],
        None => Seq::empty(),
    };
    plus + minus
}

/// The witness of a select: the first operand's value where the condition
/// is `1`, the second's where it is `0`, none otherwise.
pub open spec fn chosen_slot(m: SynthesizerModel, c: Operand, a: Operand, b: Operand) -> Option<Seq<char>> {
    if operand_value(m, c) == Some("1"@) {
        operand_value(m, a)
    } else if operand_value(m, c) == Some("0"@) {
        operand_value(m, b)
    } else {
        None
    }
}

/// Selection of operand `a` or `b` by the boolean operand `c`: a new
/// private variable `r` and the one constraint `c * (a - b) = r - b`,
/// whatever `c` is.
pub open spec fn select_scalar(c: Operand, a: Operand, b: Operand, m: SynthesizerModel) -> (
    Result<Index, GadgetError>,
    SynthesizerModel,
) {
    if !(operand_in_range(m, c) && operand_in_range(m, a) && operand_in_range(m, b)) {
        (Err(GadgetError::MissingVariable), m)
    } else if m.private.len() >= usize::MAX {
        (Err(GadgetError::NoRoom), m)
    } else {
        let r = Index::Private(m.private.len() as usize);
        (
            Ok(r),
            SynthesizerModel {
                public: m.public,
                private: m.private.push(chosen_slot(m, c, a, b)),
                at: m.at.push(difference_row(c, None)),
                bt: m.bt.push(difference_row(a, b)),
                ct: m.ct.push(difference_row(Some(r), b)),
            },
        )
    }
}

/// Selection between two enforced values by the boolean operand `c`: one
/// select of scalars for two fields or two booleans, member by member for
/// two instances of one circuit with the same member names.
pub open spec fn select(c: Operand, a: ValueModel, b: ValueModel, m: SynthesizerModel) -> SelectOutcome
    decreases a, 0int,
{
    match (a, b) {
        (ValueModel::Field(ia), ValueModel::Field(ib)) => match select_scalar(c, Some(ia), Some(ib), m) {
            (Ok(r), m1) => (Ok(ValueModel::Field(r)), m1),
            (Err(e), m1) => (Err(e), m1),
        },
        (ValueModel::Boolean(ba), ValueModel::Boolean(bb)) => match select_scalar(
            c,
            bool_operand(ba),
            bool_operand(bb),
            m,
        ) {
            (Ok(r), m1) => (Ok(ValueModel::Boolean(BooleanValue::Allocated(r))), m1),
            (Err(e), m1) => (Err(e), m1),
        },
        (ValueModel::Circuit(ca, ma), ValueModel::Circuit(cb, mb)) => {
            if ca == cb && ma.len() == mb.len() {
                select_members(c, ca, ma, mb, 0, m, Seq::empty())
            } else {
                (Err(GadgetError::ShapeMismatch), m)
            }
        },
        _ => (Err(GadgetError::ShapeMismatch), m),
    }
}

/// Selects the members from the `k`-th on, after the members `acc`.
pub open spec fn select_members(
    c: Operand,
    circ: usize,
    ma: Seq<(Seq<char>, ValueModel)>,
    mb: Seq<(Seq<char>, ValueModel)>,
    k: int,
    m: SynthesizerModel,
    acc: Seq<(Seq<char>, ValueModel)>,
) -> SelectOutcome
    decreases ma, ma.len() - k,
{
    if !(0 <= k < ma.len() && k < mb.len()) {
        (Ok(ValueModel::Circuit(circ, acc)), m)
    } else if ma[k].0 != mb[k].0 {
        (Err(GadgetError::ShapeMismatch), m)
    } else {
        let (r, m1) = select(c, ma[k].1, mb[k].1, m);
        match r {
            Err(e) => (Err(e), m1),
            Ok(v) => select_members(c, circ, ma, mb, k + 1, m1, acc.push((ma[k].0, v))),
        }
    }
}

/// A new private witness holding `v`.
pub open spec fn allocate_witness(m: SynthesizerModel, v: Seq<char>) -> SynthesizerModel {
    SynthesizerModel { private: m.private.push(Some(v)), ..m }
}

/// The single term `1 * x`.
pub open spec fn unit_row(x: Index) -> Seq<(Seq<char>, Index)> {
    seq![("1"@, x)]
}

/// A new boolean witness holding `b`, with the constraint `x * x = x`.
pub open spec fn allocate_boolean(m: SynthesizerModel, b: bool) -> SynthesizerModel {
    let x = Index::Private(m.private.len() as usize);
    SynthesizerModel {
        public: m.public,
        private: m.private.push(Some(if b { "1"@ } else { "0"@ })),
        at: m.at.push(unit_row(x)),
        bt: m.bt.push(unit_row(x)),
        ct: m.ct.push(unit_row(x)),
    }
}

/// Enforcing node `id` from state `m`: the value or error, and the state
/// after.
pub open spec fn eval(p: Program, id: int, m: SynthesizerModel) -> Outcome
    decreases id, 1int, 0int,
{
    if !(0 <= id < p.nodes@.len()) {
        (Err(ErrorModel::UnknownNode(Span { line: 0, start: 0 })), m)
    } else {
        let span = p.nodes@[id].span;
        let x = Index::Private(m.private.len() as usize);
        match p.nodes@[id].expression {
            Expression::Boolean(b) => (Ok(ValueModel::Boolean(BooleanValue::Constant(b))), m),
            Expression::PrivateBoolean(b) => if m.private.len() >= usize::MAX {
                (Err(ErrorModel::GadgetFailure(GadgetError::NoRoom, span)), m)
            } else {
                (Ok(ValueModel::Boolean(BooleanValue::Allocated(x))), allocate_boolean(m, b))
            },
            Expression::Field(f) => if m.private.len() >= usize::MAX {
                (Err(ErrorModel::GadgetFailure(GadgetError::NoRoom, span)), m)
            } else {
                (Ok(ValueModel::Field(x)), allocate_witness(m, f@))
            },
            Expression::Conditional(c, a, b) => eval_conditional(p, id, c as int, a as int, b as int, span, m),
            Expression::CircuitInit(circ, vs) => eval_members(p, id, circ, vs@, 0, m, Seq::empty(), span),
        }
    }
}

/// Enforces the condition, then both branches whatever the condition
/// holds, then selects.
pub open spec fn eval_conditional(p: Program, bound: int, c: int, a: int, b: int, span: Span, m: SynthesizerModel) -> Outcome
    decreases bound, 0int, 0int,
{
    if !(0 <= c < bound && 0 <= a < bound && 0 <= b < bound) {
        (Err(ErrorModel::UnknownNode(span)), m)
    } else {
        let (rc, m1) = eval(p, c, m);
        match rc {
            Err(e) => (Err(e), m1),
            Ok(ValueModel::Boolean(cond)) => {
                let (ra, m2) = eval(p, a, m1);
                match ra {
                    Err(e) => (Err(e), m2),
                    Ok(va) => {
                        let (rb, m3) = eval(p, b, m2);
                        match rb {
                            Err(e) => (Err(e), m3),
                            Ok(vb) => match select(bool_operand(cond), va, vb, m3) {
                                (Ok(v), m4) => (Ok(v), m4),
                                (Err(e), m4) => (Err(ErrorModel::GadgetFailure(e, span)), m4),
                            },
                        }
                    },
                }
            },
            Ok(_) => (Err(ErrorModel::ConditionNotBoolean(p.nodes@[c].span)), m1),
        }
    }
}

/// Enforces the member values from the `k`-th on, in order, after the
/// members `acc` already enforced.
pub open spec fn eval_members(
    p: Program,
    bound: int,
    circ: usize,
    vs: Seq<(String, usize)>,
    k: int,
    m: SynthesizerModel,
    acc: Seq<(Seq<char>, ValueModel)>,
    span: Span,
) -> Outcome
    decreases bound, 0int, vs.len() - k,
{
    if !(0 <= k < vs.len()) {
        (Ok(ValueModel::Circuit(circ, acc)), m)
    } else if !(circ < p.circuits@.len() && vs[k].1 < bound) {
        (Err(ErrorModel::UnknownNode(span)), m)
    } else {
        let name = vs[k].0@;
        match member_kind(p.circuits@[circ as int].members@, name) {
            Some(CircuitMember::Variable) => {
                let (r, m1) = eval(p, vs[k].1 as int, m);
                match r {
                    Err(e) => (Err(e), m1),
                    Ok(v) => eval_members(p, bound, circ, vs, k + 1, m1, acc.push((name, v)), span),
                }
            },
            _ => (Err(ErrorModel::NotADataMember(name, span)), m),
        }
    }
}

/// The character of the decimal digit `d`.
pub open spec fn digit_char(d: nat) -> char {
    seq!['0', '1', '2', '3', '4', '5', '6', '7', '8', '9'][d as int]
}

/// The decimal digits of `n`, without leading zeroes.
pub open spec fn decimal(n: nat) -> Seq<char>
    decreases n,
{
    if n < 10 {
        seq![digit_char(n)]
    } else {
        decimal(n / 10).push(digit_char(n % 10))
    }
}

pub open spec fn usize_text(n: usize) -> Seq<char> {
    decimal(n as nat)
}

fn digit_text(d: usize) -> (r: String)
    requires
        d < 10,
    ensures
        r@ == seq![digit_char(d as nat)],
{
    proof {
        reveal_strlit("0");
        reveal_strlit("1");
        reveal_strlit("2");
        reveal_strlit("3");
        reveal_strlit("4");
        reveal_strlit("5");
        reveal_strlit("6");
        reveal_strlit("7");
        reveal_strlit("8");
        reveal_strlit("9");
    }
    let r = if d == 0 {
        "0"
    } else if d == 1 {
        "1"
    } else if d == 2 {
        "2"
    } else if d == 3 {
        "3"
    } else if d == 4 {
        "4"
    } else if d == 5 {
        "5"
    } else if d == 6 {
        "6"
    } else if d == 7 {
        "7"
    } else if d == 8 {
        "8"
    } else {
        "9"
    };
    assert(r@ =~= seq![digit_char(d as nat)]);
    r.to_owned()
}

fn usize_to_text(x: usize) -> (r: String)
    ensures
        r@ == usize_text(x),
{
    let mut n = x;
    let mut s = String::new();
    assert(decimal(x as nat) =~= decimal(n as nat) + s@);
    while n >= 10
        invariant
            decimal(x as nat) == decimal(n as nat) + s@,
        decreases n,
    {
        let d = digit_text(n % 10);
        let ghost before = s@;
        s = d.concat(s.as_str());
        assert(decimal(n as nat) == decimal((n / 10) as nat).push(digit_char((n % 10) as nat)));
        assert(decimal(n as nat) + before =~= decimal((n / 10) as nat) + s@);
        n = n / 10;
    }
    let d = digit_text(n);
    let r = d.concat(s.as_str());
    assert(r@ =~= decimal(x as nat));
    r
}

pub open spec fn index_text(i: Index) -> Seq<char> {
    match i {
        Index::One => "one"@,
        Index::Public(n) => "public "@ + usize_text(n),
        Index::Private(n) => "private "@ + usize_text(n),
    }
}

/// A short textual form of a value, for diagnostics.
pub open spec fn value_text(v: ValueModel) -> Seq<char> {
    match v {
        ValueModel::Field(i) => "field "@ + index_text(i),
        ValueModel::Boolean(BooleanValue::Constant(b)) => if b {
            "true"@
        } else {
            "false"@
        },
        ValueModel::Boolean(BooleanValue::Allocated(i)) => "boolean "@ + index_text(i),
        ValueModel::Circuit(c, _) => "circuit "@ + usize_text(c),
    }
}

/// The debug scope label of a select: both operands and the source
/// position. It names the scope only; nothing depends on it.
pub open spec fn select_label(a: ValueModel, b: ValueModel, span: Span) -> Seq<char> {
    "select "@ + value_text(a) + " or "@ + value_text(b) + " "@ + usize_text(span.line) + ":"@ + usize_text(
        span.start,
    )
}

fn index_label(i: Index) -> (r: String)
    ensures
        r@ == index_text(i),
{
    match i {
        Index::One => "one".to_owned(),
        Index::Public(n) => "public ".to_owned().concat(usize_to_text(n).as_str()),
        Index::Private(n) => "private ".to_owned().concat(usize_to_text(n).as_str()),
    }
}

fn value_label(v: &ConstrainedValue) -> (r: String)
    ensures
        r@ == value_text(v.model()),
{
    match v {
        ConstrainedValue::Field(i) => "field ".to_owned().concat(index_label(*i).as_str()),
        ConstrainedValue::Boolean(BooleanValue::Constant(b)) => if *b {
            "true".to_owned()
        } else {
            "false".to_owned()
        },
        ConstrainedValue::Boolean(BooleanValue::Allocated(i)) => "boolean ".to_owned().concat(
            index_label(*i).as_str(),
        ),
        ConstrainedValue::CircuitExpression(c, _) => "circuit ".to_owned().concat(usize_to_text(*c).as_str()),
    }
}

fn label_of_select(a: &ConstrainedValue, b: &ConstrainedValue, span: Span) -> (r: String)
    ensures
        r@ == select_label(a.model(), b.model(), span),
{
    let r = "select ".to_owned().concat(value_label(a).as_str()).concat(" or ").concat(value_label(b).as_str()).concat(
        " ",
    ).concat(usize_to_text(span.line).as_str()).concat(":").concat(usize_to_text(span.start).as_str());
    assert(r@ =~= select_label(a.model(), b.model(), span));
    r
}

/// The condition and both branches of a conditional enforce, so that its
/// select is reached.
pub open spec fn reaches_select(p: Program, bound: int, c: int, a: int, b: int, m: SynthesizerModel) -> bool {
    let (rc, m1) = eval(p, c, m);
    let (ra, m2) = eval(p, a, m1);
    let (rb, m3) = eval(p, b, m2);
    &&& 0 <= c < bound && 0 <= a < bound && 0 <= b < bound
    &&& rc matches Ok(ValueModel::Boolean(_))
    &&& ra is Ok
    &&& rb is Ok
}

/// The label of the select that a conditional reaches.
pub open spec fn conditional_label(p: Program, c: int, a: int, b: int, span: Span, m: SynthesizerModel) -> Seq<char> {
    let m1 = eval(p, c, m).1;
    let (ra, m2) = eval(p, a, m1);
    let rb = eval(p, b, m2).0;
    select_label(ra->Ok_0, rb->Ok_0, span)
}

fn lookup_member(ms: &Vec<(String, CircuitMember)>, name: &String) -> (r: Option<CircuitMember>)
    ensures
        r == member_kind(ms@, name@),
{
    let mut i: usize = 0;
    assert(ms@.subrange(0, ms@.len() as int) =~= ms@);
    while i < ms.len()
        invariant
            i <= ms@.len(),
            member_kind(ms@, name@) == member_kind(ms@.subrange(i as int, ms@.len() as int), name@),
        decreases ms@.len() - i,
    {
        let ghost rest = ms@.subrange(i as int, ms@.len() as int);
        assert(rest[0] == ms@[i as int]);
        if ms[i].0 == *name {
            return Some(ms[i].1);
        }
        assert(rest.drop_first() =~= ms@.subrange(i + 1, ms@.len() as int));
        i = i + 1;
    }
    None
}

fn has_slot(cs: &CircuitSynthesizer, i: Index) -> (r: bool)
    ensures
        r == index_in_range(i, cs@.public.len(), cs@.private.len()),
{
    match i {
        Index::One => true,
        Index::Public(n) => n < cs.num_public_variables(),
        Index::Private(n) => n < cs.num_private_variables(),
    }
}

fn bool_operand_of(b: BooleanValue) -> (r: Operand)
    ensures
        r == bool_operand(b),
{
    match b {
        BooleanValue::Constant(true) => Some(Index::One),
        BooleanValue::Constant(false) => None,
        BooleanValue::Allocated(i) => Some(i),
    }
}

fn operand_in(cs: &CircuitSynthesizer, o: Operand) -> (r: bool)
    ensures
        r == operand_in_range(cs@, o),
{
    match o {
        Some(i) => has_slot(cs, i),
        None => true,
    }
}

fn value_of_operand(cs: &CircuitSynthesizer, o: Operand) -> (r: Option<FieldElement>)
    requires
        cs.wf(),
        operand_in_range(cs@, o),
    ensures
        slot_model(r) == operand_value(cs@, o),
        r matches Some(f) ==> f.valid(),
{
    match o {
        Some(i) => cs.value(i),
        None => {
            proof {
                reveal_strlit("0");
            }
            Some(FieldElement::zero())
        },
    }
}

fn difference(x: Operand, y: Operand) -> (r: Vec<(FieldElement, Index)>)
    ensures
        row_model(r@) == difference_row(x, y),
        forall|k: int| 0 <= k < r@.len() ==> (#[trigger] r@[k]).0.valid(),
{
    let mut r: Vec<(FieldElement, Index)> = Vec::new();
    if let Some(i) = x {
        r.push((FieldElement::one(), i));
    }
    if let Some(j) = y {
        r.push((FieldElement::minus_one(), j));
    }
    assert(row_model(r@) =~= difference_row(x, y));
    r
}

fn select_scalars(cs: &mut CircuitSynthesizer, c: Operand, a: Operand, b: Operand) -> (r: Result<Index, GadgetError>)
    requires
        old(cs).wf(),
    ensures
        final(cs).wf(),
        final(cs).scopes() == old(cs).scopes(),
        (r, final(cs)@) == select_scalar(c, a, b, old(cs)@),
{
    if !(operand_in(cs, c) && operand_in(cs, a) && operand_in(cs, b)) {
        return Err(GadgetError::MissingVariable);
    }
    if cs.num_private_variables() == usize::MAX {
        return Err(GadgetError::NoRoom);
    }
    let ghost m = cs@;
    let value = match value_of_operand(cs, c) {
        Some(f) => {
            let d = f.to_decimal();
            if d == "1".to_owned() {
                value_of_operand(cs, a)
            } else if d == "0".to_owned() {
                value_of_operand(cs, b)
            } else {
                None
            }
        },
        None => None,
    };
    assert(slot_model(value) == chosen_slot(m, c, a, b));
    let r = cs.allocate(Visibility::Private, value);
    let ra = difference(c, None);
    let rb = difference(a, b);
    let rc = difference(Some(r), b);
    cs.enforce(ra, rb, rc);
    Ok(r)
}

/// Selects between two enforced values by the boolean `cond`, constant
/// or not: one new variable and one constraint for two scalars of one kind,
/// member by member for two instances of one circuit.
pub fn conditionally_select(
    cs: &mut CircuitSynthesizer,
    cond: BooleanValue,
    first: &ConstrainedValue,
    second: &ConstrainedValue,
) -> (r: Result<ConstrainedValue, GadgetError>)
    requires
        old(cs).wf(),
    ensures
        final(cs).wf(),
        final(cs).scopes() == old(cs).scopes(),
        (select_result_model(r), final(cs)@) == select(
            bool_operand(cond),
            first.model(),
            second.model(),
            old(cs)@,
        ),
    decreases first,
{
    let c = bool_operand_of(cond);
    match (first, second) {
        (ConstrainedValue::Field(ia), ConstrainedValue::Field(ib)) => match select_scalars(
            cs,
            c,
            Some(*ia),
            Some(*ib),
        ) {
            Ok(r) => Ok(ConstrainedValue::Field(r)),
            Err(e) => Err(e),
        },
        (ConstrainedValue::Boolean(ba), ConstrainedValue::Boolean(bb)) => match select_scalars(
            cs,
            c,
            bool_operand_of(*ba),
            bool_operand_of(*bb),
        ) {
            Ok(r) => Ok(ConstrainedValue::Boolean(BooleanValue::Allocated(r))),
            Err(e) => Err(e),
        },
        (ConstrainedValue::CircuitExpression(ca, ma), ConstrainedValue::CircuitExpression(cb, mb)) => {
            proof {
                lemma_members_model(ma@);
                lemma_members_model(mb@);
            }
            if *ca != *cb || ma.len() != mb.len() {
                return Err(GadgetError::ShapeMismatch);
            }
            let ghost mma = members_model(ma@);
            let ghost mmb = members_model(mb@);
            let ghost goal = select(c, first.model(), second.model(), cs@);
            let mut acc: Vec<ConstrainedCircuitMember> = Vec::new();
            proof {
                assert(members_model(acc@) =~= Seq::empty());
            }
            let mut k: usize = 0;
            while k < ma.len()
                invariant
                    cs.wf(),
                    cs.scopes() == old(cs).scopes(),
                    *first is CircuitExpression,
                    *ma == first->CircuitExpression_1,
                    k <= ma@.len(),
                    ma@.len() == mb@.len(),
                    mma == members_model(ma@),
                    mmb == members_model(mb@),
                    mma.len() == ma@.len(),
                    mmb.len() == mb@.len(),
                    forall|j: int| 0 <= j < ma@.len() ==> #[trigger] mma[j] == (ma@[j].0@, ma@[j].1.model()),
                    forall|j: int| 0 <= j < mb@.len() ==> #[trigger] mmb[j] == (mb@[j].0@, mb@[j].1.model()),
                    c == bool_operand(cond),
                    goal == select(c, first.model(), second.model(), old(cs)@),
                    goal == select_members(c, *ca, mma, mmb, k as int, cs@, members_model(acc@)),
                decreases ma@.len() - k,
            {
                assert(mma[k as int] == (ma@[k as int].0@, ma@[k as int].1.model()));
                assert(mmb[k as int] == (mb@[k as int].0@, mb@[k as int].1.model()));
                if ma[k].0 != mb[k].0 {
                    return Err(GadgetError::ShapeMismatch);
                }
                assert(decreases_to!(ma@ => ma@[k as int]));
                assert(decreases_to!(ma@[k as int] => ma@[k as int].1));
                let ghost acc_before = acc@;
                match conditionally_select(cs, cond, &ma[k].1, &mb[k].1) {
                    Ok(v) => {
                        let ghost vm = v.model();
                        acc.push(ConstrainedCircuitMember(ma[k].0.clone(), v));
                        proof {
                            assert(acc@.subrange(0, acc@.len() - 1) =~= acc_before);
                        }
                    },
                    Err(e) => {
                        return Err(e);
                    },
                }
                k = k + 1;
            }
            Ok(ConstrainedValue::CircuitExpression(*ca, acc))
        },
        _ => Err(GadgetError::ShapeMismatch),
    }
}

/// A program together with what enforcing its expressions needs.
#[derive(Debug)]
pub struct ConstrainedProgram {
    pub program: Program,
}

impl ConstrainedProgram {
    pub fn new(program: Program) -> (r: ConstrainedProgram)
        ensures
            r.program == program,
    {
        ConstrainedProgram { program }
    }

    /// Enforces node `id` and everything it names.
    pub fn enforce_expression(&self, cs: &mut CircuitSynthesizer, id: usize) -> (r: Result<
        ConstrainedValue,
        ExpressionError,
    >)
        requires
            self.program.wf(),
            old(cs).wf(),
        ensures
            final(cs).wf(),
            (result_model(r), final(cs)@) == eval(self.program, id as int, old(cs)@),
        decreases id, 1int, 0int,
    {
        if id >= self.program.nodes.len() {
            return Err(ExpressionError::UnknownNode(Span { line: 0, start: 0 }));
        }
        let node = &self.program.nodes[id];
        assert(node_wf(&self.program, id as int, self.program.nodes@[id as int]));
        match &node.expression {
            Expression::Boolean(b) => Ok(ConstrainedValue::Boolean(BooleanValue::Constant(*b))),
            Expression::PrivateBoolean(b) => {
                if cs.num_private_variables() == usize::MAX {
                    return Err(ExpressionError::GadgetFailure(GadgetError::NoRoom, node.span));
                }
                let ghost m = cs@;
                let digits = if *b {
                    FieldElement::one()
                } else {
                    FieldElement::zero()
                };
                let x = cs.allocate(Visibility::Private, Some(digits));
                let ra = vec![(FieldElement::one(), x)];
                let rb = vec![(FieldElement::one(), x)];
                let rc = vec![(FieldElement::one(), x)];
                assert(row_model(ra@) =~= unit_row(x));
                assert(row_model(rb@) =~= unit_row(x));
                assert(row_model(rc@) =~= unit_row(x));
                cs.enforce(ra, rb, rc);
                assert(cs@ == allocate_boolean(m, *b));
                Ok(ConstrainedValue::Boolean(BooleanValue::Allocated(x)))
            },
            Expression::Field(f) => {
                if cs.num_private_variables() == usize::MAX {
                    return Err(ExpressionError::GadgetFailure(GadgetError::NoRoom, node.span));
                }
                let ghost m = cs@;
                let r = cs.allocate(Visibility::Private, Some(f.duplicate()));
                assert(cs@ == allocate_witness(m, f@));
                Ok(ConstrainedValue::Field(r))
            },
            Expression::Conditional(c, a, b) => self.enforce_conditional_within(cs, id, *c, *a, *b, node.span),
            Expression::CircuitInit(circ, vs) => self.enforce_members(cs, id, *circ, vs, node.span),
        }
    }

    fn enforce_conditional_within(
        &self,
        cs: &mut CircuitSynthesizer,
        bound: usize,
        c: usize,
        a: usize,
        b: usize,
        span: Span,
    ) -> (r: Result<ConstrainedValue, ExpressionError>)
        requires
            self.program.wf(),
            old(cs).wf(),
            bound <= self.program.nodes@.len(),
        ensures
            final(cs).wf(),
            (result_model(r), final(cs)@) == eval_conditional(
                self.program,
                bound as int,
                c as int,
                a as int,
                b as int,
                span,
                old(cs)@,
            ),
            reaches_select(self.program, bound as int, c as int, a as int, b as int, old(cs)@) ==> (final(cs).scopes().len()
                > 0 && final(cs).scopes().last() == conditional_label(
                self.program,
                c as int,
                a as int,
                b as int,
                span,
                old(cs)@,
            )),
        decreases bound, 0int, 0int,
    {
        if !(c < bound && a < bound && b < bound) {
            return Err(ExpressionError::UnknownNode(span));
        }
        let cond = match self.enforce_expression(cs, c) {
            Ok(ConstrainedValue::Boolean(v)) => v,
            Ok(_) => {
                return Err(ExpressionError::ConditionNotBoolean(self.program.nodes[c].span));
            },
            Err(e) => {
                return Err(e);
            },
        };
        let first = match self.enforce_expression(cs, a) {
            Ok(v) => v,
            Err(e) => {
                return Err(e);
            },
        };
        let second = match self.enforce_expression(cs, b) {
            Ok(v) => v,
            Err(e) => {
                return Err(e);
            },
        };
        let label = label_of_select(&first, &second, span);
        cs.push_namespace(label);
        match conditionally_select(cs, cond, &first, &second) {
            Ok(v) => Ok(v),
            Err(e) => Err(ExpressionError::GadgetFailure(e, span)),
        }
    }

    fn enforce_members(
        &self,
        cs: &mut CircuitSynthesizer,
        bound: usize,
        circ: usize,
        vs: &Vec<(String, usize)>,
        span: Span,
    ) -> (r: Result<ConstrainedValue, ExpressionError>)
        requires
            self.program.wf(),
            old(cs).wf(),
            bound <= self.program.nodes@.len(),
        ensures
            final(cs).wf(),
            (result_model(r), final(cs)@) == eval_members(
                self.program,
                bound as int,
                circ,
                vs@,
                0,
                old(cs)@,
                Seq::empty(),
                span,
            ),
        decreases bound, 0int, 0int,
    {
        let ghost goal = eval_members(self.program, bound as int, circ, vs@, 0, cs@, Seq::empty(), span);
        let mut acc: Vec<ConstrainedCircuitMember> = Vec::new();
        proof {
            assert(members_model(acc@) =~= Seq::empty());
        }
        let mut k: usize = 0;
        while k < vs.len()
            invariant
                self.program.wf(),
                cs.wf(),
                bound <= self.program.nodes@.len(),
                k <= vs@.len(),
                goal == eval_members(self.program, bound as int, circ, vs@, 0, old(cs)@, Seq::empty(), span),
                goal == eval_members(self.program, bound as int, circ, vs@, k as int, cs@, members_model(acc@), span),
            decreases vs@.len() - k,
        {
            if !(circ < self.program.circuits.len() && vs[k].1 < bound) {
                return Err(ExpressionError::UnknownNode(span));
            }
            let name = &vs[k].0;
            match lookup_member(&self.program.circuits[circ].members, name) {
                Some(CircuitMember::Variable) => {
                    let ghost acc_before = acc@;
                    let v = self.enforce_expression(cs, vs[k].1);
                    match v {
                        Ok(v) => {
                            let ghost vm = v.model();
                            acc.push(ConstrainedCircuitMember(name.clone(), v));
                            proof {
                                assert(acc@.subrange(0, acc@.len() - 1) =~= acc_before);
                                assert(members_model(acc@) == members_model(acc_before).push((name@, vm)));
                            }
                        },
                        Err(e) => {
                            return Err(e);
                        },
                    }
                },
                _ => {
                    return Err(ExpressionError::NotADataMember(name.clone(), span));
                },
            }
            k = k + 1;
        }
        Ok(ConstrainedValue::CircuitExpression(circ, acc))
    }

    /// Enforces `conditional ? first : second`: the condition, then both
    /// branches whatever the condition is, then one select.
    pub fn enforce_conditional_expression(
        &self,
        cs: &mut CircuitSynthesizer,
        conditional: usize,
        first: usize,
        second: usize,
        span: &Span,
    ) -> (r: Result<ConstrainedValue, ExpressionError>)
        requires
            self.program.wf(),
            old(cs).wf(),
        ensures
            final(cs).wf(),
            (result_model(r), final(cs)@) == eval_conditional(
                self.program,
                self.program.nodes@.len() as int,
                conditional as int,
                first as int,
                second as int,
                *span,
                old(cs)@,
            ),
            reaches_select(
                self.program,
                self.program.nodes@.len() as int,
                conditional as int,
                first as int,
                second as int,
                old(cs)@,
            ) ==> (final(cs).scopes().len() > 0 && final(cs).scopes().last() == conditional_label(
                self.program,
                conditional as int,
                first as int,
                second as int,
                *span,
                old(cs)@,
            )),
    {
        self.enforce_conditional_within(cs, self.program.nodes.len(), conditional, first, second, *span)
    }

    /// Enforces an instance of circuit `circuit` with a value expression for
    /// each named member, in the order given.
    pub fn enforce_circuit(
        &self,
        cs: &mut CircuitSynthesizer,
        circuit: usize,
        values: &Vec<(String, usize)>,
        span: &Span,
    ) -> (r: Result<ConstrainedValue, ExpressionError>)
        requires
            self.program.wf(),
            old(cs).wf(),
        ensures
            final(cs).wf(),
            (result_model(r), final(cs)@) == eval_members(
                self.program,
                self.program.nodes@.len() as int,
                circuit,
                values@,
                0,
                old(cs)@,
                Seq::empty(),
                *span,
            ),
    {
        self.enforce_members(cs, self.program.nodes.len(), circuit, values, *span)
    }
}


/// `m2` keeps every slot of `m` and adds only private ones.
pub open spec fn extends(m: SynthesizerModel, m2: SynthesizerModel) -> bool {
    &&& m2.public == m.public
    &&& m2.private.len() >= m.private.len()
    &&& forall|i: int| 0 <= i < m.private.len() ==> #[trigger] m2.private[i] == m.private[i]
}

/// A scalar value names a slot of `m`.
pub open spec fn scalar_in(v: ValueModel, m: SynthesizerModel) -> bool {
    match v {
        ValueModel::Field(i) => index_in_range(i, m.public.len(), m.private.len()),
        ValueModel::Boolean(b) => operand_in_range(m, bool_operand(b)),
        _ => true,
    }
}

pub proof fn lemma_select_grows(c: Operand, a: ValueModel, b: ValueModel, m: SynthesizerModel)
    ensures
        extends(m, select(c, a, b, m).1),
        select(c, a, b, m).0 matches Ok(v) ==> scalar_in(v, select(c, a, b, m).1),
    decreases a, 0int,
{
    if let (ValueModel::Circuit(ca, ma), ValueModel::Circuit(cb, mb)) = (a, b) {
        if ca == cb && ma.len() == mb.len() {
            lemma_select_members_grow(c, ca, ma, mb, 0, m, Seq::empty());
        }
    }
}

proof fn lemma_select_members_grow(
    c: Operand,
    circ: usize,
    ma: Seq<(Seq<char>, ValueModel)>,
    mb: Seq<(Seq<char>, ValueModel)>,
    k: int,
    m: SynthesizerModel,
    acc: Seq<(Seq<char>, ValueModel)>,
)
    ensures
        extends(m, select_members(c, circ, ma, mb, k, m, acc).1),
        select_members(c, circ, ma, mb, k, m, acc).0 matches Ok(v) ==> v is Circuit,
    decreases ma, ma.len() - k,
{
    if 0 <= k < ma.len() && k < mb.len() && ma[k].0 == mb[k].0 {
        lemma_select_grows(c, ma[k].1, mb[k].1, m);
        let (r, m1) = select(c, ma[k].1, mb[k].1, m);
        if let Ok(v) = r {
            lemma_select_members_grow(c, circ, ma, mb, k + 1, m1, acc.push((ma[k].0, v)));
        }
    }
}

/// Enforcement keeps every slot it found, adds only private ones, and a
/// scalar it returns names a slot of the state it leaves.
pub proof fn lemma_eval_grows(p: Program, id: int, m: SynthesizerModel)
    ensures
        extends(m, eval(p, id, m).1),
        eval(p, id, m).0 matches Ok(v) ==> scalar_in(v, eval(p, id, m).1),
    decreases id, 1int, 0int,
{
    if 0 <= id < p.nodes@.len() {
        let span = p.nodes@[id].span;
        match p.nodes@[id].expression {
            Expression::Conditional(c, a, b) => {
                lemma_conditional_grows(p, id, c as int, a as int, b as int, span, m);
            },
            Expression::CircuitInit(circ, vs) => {
                lemma_members_grow(p, id, circ, vs@, 0, m, Seq::empty(), span);
            },
            _ => {},
        }
    }
}

proof fn lemma_conditional_grows(p: Program, bound: int, c: int, a: int, b: int, span: Span, m: SynthesizerModel)
    ensures
        extends(m, eval_conditional(p, bound, c, a, b, span, m).1),
        eval_conditional(p, bound, c, a, b, span, m).0 matches Ok(v) ==> scalar_in(
            v,
            eval_conditional(p, bound, c, a, b, span, m).1,
        ),
    decreases bound, 0int, 0int,
{
    if 0 <= c < bound && 0 <= a < bound && 0 <= b < bound {
        lemma_eval_grows(p, c, m);
        let (rc, m1) = eval(p, c, m);
        lemma_eval_grows(p, a, m1);
        let (ra, m2) = eval(p, a, m1);
        lemma_eval_grows(p, b, m2);
        let (rb, m3) = eval(p, b, m2);
        if let (Ok(ValueModel::Boolean(cond)), Ok(va), Ok(vb)) = (rc, ra, rb) {
            lemma_select_grows(bool_operand(cond), va, vb, m3);
        }
    }
}

proof fn lemma_members_grow(
    p: Program,
    bound: int,
    circ: usize,
    vs: Seq<(String, usize)>,
    k: int,
    m: SynthesizerModel,
    acc: Seq<(Seq<char>, ValueModel)>,
    span: Span,
)
    ensures
        extends(m, eval_members(p, bound, circ, vs, k, m, acc, span).1),
        eval_members(p, bound, circ, vs, k, m, acc, span).0 matches Ok(v) ==> v is Circuit,
    decreases bound, 0int, vs.len() - k,
{
    if 0 <= k < vs.len() && circ < p.circuits@.len() && vs[k].1 < bound {
        let name = vs[k].0@;
        if member_kind(p.circuits@[circ as int].members@, name) == Some(CircuitMember::Variable) {
            lemma_eval_grows(p, vs[k].1 as int, m);
            let (r, m1) = eval(p, vs[k].1 as int, m);
            if let Ok(v) = r {
                lemma_members_grow(p, bound, circ, vs, k + 1, m1, acc.push((name, v)), span);
            }
        }
    }
}

/// Two scalars of one kind.
pub open spec fn same_scalar_kind(a: ValueModel, b: ValueModel) -> bool {
    (a is Field && b is Field) || (a is Boolean && b is Boolean)
}

/// A conditional whose condition is the constant `cond` and whose
/// branches are scalars of one kind is the chosen branch's value: a new
/// variable of that kind holding what the chosen branch holds. The
/// condition costs nothing; both branches are enforced, in order, from the
/// state before the conditional, whatever the condition; the select then
/// adds exactly one private variable and one constraint to what they left.
pub proof fn lemma_ternary_totality(
    p: Program,
    bound: int,
    c: int,
    a: int,
    b: int,
    span: Span,
    m: SynthesizerModel,
    cond: bool,
)
    requires
        0 <= c < bound,
        0 <= a < bound,
        0 <= b < bound,
        bound <= p.nodes@.len(),
        p.nodes@[c].expression == Expression::Boolean(cond),
        eval(p, a, m).0 is Ok,
        eval(p, b, eval(p, a, m).1).0 is Ok,
        same_scalar_kind(eval(p, a, m).0->Ok_0, eval(p, b, eval(p, a, m).1).0->Ok_0),
        eval(p, b, eval(p, a, m).1).1.private.len() < usize::MAX,
    ensures
        ({
            let (ra, m2) = eval(p, a, m);
            let (rb, m3) = eval(p, b, m2);
            let (r, m4) = eval_conditional(p, bound, c, a, b, span, m);
            let chosen = if cond { ra->Ok_0 } else { rb->Ok_0 };
            &&& r is Ok
            &&& same_scalar_kind(r->Ok_0, chosen)
            &&& operand_value(m4, operand_of(r->Ok_0)) == operand_value(m3, operand_of(chosen))
            &&& m4.public == m3.public
            &&& m4.private.len() == m3.private.len() + 1
            &&& m4.at.len() == m3.at.len() + 1
            &&& m4.bt.len() == m3.bt.len() + 1
            &&& m4.ct.len() == m3.ct.len() + 1
        }),
{
    assert(eval(p, c, m) == (Ok::<ValueModel, ErrorModel>(ValueModel::Boolean(BooleanValue::Constant(cond))), m));
    lemma_eval_grows(p, a, m);
    let (ra, m2) = eval(p, a, m);
    lemma_eval_grows(p, b, m2);
    let (rb, m3) = eval(p, b, m2);
    reveal_strlit("1");
    reveal_strlit("0");
    assert("1"@[0] != "0"@[0]);
    let oc = bool_operand(BooleanValue::Constant(cond));
    assert(operand_value(m3, oc) == Some(if cond { "1"@ } else { "0"@ }));
    let (r, m4) = eval_conditional(p, bound, c, a, b, span, m);
    assert(m4.private[m3.private.len() as int] == chosen_slot(m3, oc, operand_of(ra->Ok_0), operand_of(rb->Ok_0)));
}

/// A conditional whose condition enforces to anything but a boolean fails
/// with a structural mismatch carrying the condition's source location,
/// and enforces neither branch.
pub proof fn lemma_non_boolean_condition(p: Program, bound: int, c: int, a: int, b: int, span: Span, m: SynthesizerModel)
    requires
        0 <= c < bound,
        0 <= a < bound,
        0 <= b < bound,
        eval(p, c, m).0 is Ok,
        !(eval(p, c, m).0->Ok_0 is Boolean),
    ensures
        eval_conditional(p, bound, c, a, b, span, m) == (
            Err::<ValueModel, ErrorModel>(ErrorModel::ConditionNotBoolean(p.nodes@[c].span)),
            eval(p, c, m).1,
        ),
{
}

/// The members `k .. j` of `vs` are data members whose values enforce
/// without error, one after the other from `m`.
pub open spec fn data_prefix_ok(
    p: Program,
    bound: int,
    circ: usize,
    vs: Seq<(String, usize)>,
    k: int,
    j: int,
    m: SynthesizerModel,
) -> bool
    decreases j - k,
{
    if k >= j {
        true
    } else {
        &&& vs[k].1 < bound
        &&& member_kind(p.circuits@[circ as int].members@, vs[k].0@) == Some(CircuitMember::Variable)
        &&& eval(p, vs[k].1 as int, m).0 is Ok
        &&& data_prefix_ok(p, bound, circ, vs, k + 1, j, eval(p, vs[k].1 as int, m).1)
    }
}

/// Supplying a value for a member that the circuit declares as a function
/// fails with a structural mismatch naming that member, once the data
/// members before it have been enforced.
pub proof fn lemma_non_data_member(
    p: Program,
    bound: int,
    circ: usize,
    vs: Seq<(String, usize)>,
    k: int,
    j: int,
    m: SynthesizerModel,
    acc: Seq<(Seq<char>, ValueModel)>,
    span: Span,
)
    requires
        0 <= k <= j < vs.len(),
        circ < p.circuits@.len(),
        vs[j].1 < bound,
        member_kind(p.circuits@[circ as int].members@, vs[j].0@) == Some(CircuitMember::Function),
        data_prefix_ok(p, bound, circ, vs, k, j, m),
    ensures
        eval_members(p, bound, circ, vs, k, m, acc, span).0 == Err::<ValueModel, ErrorModel>(
            ErrorModel::NotADataMember(vs[j].0@, span),
        ),
    decreases j - k,
{
    if k < j {
        let (r, m1) = eval(p, vs[k].1 as int, m);
        lemma_non_data_member(p, bound, circ, vs, k + 1, j, m1, acc.push((vs[k].0@, r->Ok_0)), span);
    }
}

} // verus!
