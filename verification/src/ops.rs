use vstd::prelude::*;

use crate::value::{Value, ValueView, view_of, views_of, lemma_views_of, lemma_views_of_concat};
use crate::typing::spec_value_type;

verus! {

#[derive(Debug, Clone, Copy, PartialEq, Eq, Structural)]
pub enum OpKind {
    Add,
    Sub,
    Rem,
    Neg,
    Not,
    And,
    Or,
}

/// An operand of a float operation the host must perform: either a double
/// bit pattern, or an integer the host widens to a double first.
#[derive(Debug, Clone, Copy, PartialEq, Eq, Structural)]
pub enum FloatArg {
    Bits(u64),
    OfInt(i128),
}

/// An operator applied outside its domain: the operator and both operand
/// type descriptors, for diagnostics. `hint_logical_not` marks the one
/// message that steers negation of a boolean towards logical not.
#[derive(Debug)]
pub struct OpError {
    pub op: OpKind,
    pub lhs_type: Value,
    pub rhs_type: Option<Value>,
    pub hint_logical_not: bool,
}

/// What a binary operator evaluates to: a finished value, a float
/// operation for the host to perform (whose result, as a double, is the
/// operator's result), or a type mismatch.
pub enum OpOutcome {
    Done(Value),
    FloatOp(OpKind, FloatArg, FloatArg),
    Mismatch(OpError),
}

/// Spec-level mirror of `OpOutcome` and of `Result<Value, OpError>`.
pub enum OpSpecOutcome {
    Done(ValueView),
    FloatOp(OpKind, FloatArg, FloatArg),
    Mismatch { op: OpKind, lhs: ValueView, rhs: Option<ValueView>, hint: bool },
}

pub open spec fn op_outcome_view(o: OpOutcome) -> OpSpecOutcome {
    match o {
        OpOutcome::Done(v) => OpSpecOutcome::Done(view_of(v)),
        OpOutcome::FloatOp(k, x, y) => OpSpecOutcome::FloatOp(k, x, y),
        OpOutcome::Mismatch(e) => op_error_view(e),
    }
}

pub open spec fn op_error_view(e: OpError) -> OpSpecOutcome {
    OpSpecOutcome::Mismatch {
        op: e.op,
        lhs: view_of(e.lhs_type),
        rhs: match e.rhs_type {
            Some(v) => Some(view_of(v)),
            None => None,
        },
        hint: e.hint_logical_not,
    }
}

pub open spec fn result_view(r: Result<Value, OpError>) -> OpSpecOutcome {
    match r {
        Ok(v) => OpSpecOutcome::Done(view_of(v)),
        Err(e) => op_error_view(e),
    }
}

pub open spec fn mismatch_of(op: OpKind, a: ValueView, b: ValueView) -> OpSpecOutcome {
    OpSpecOutcome::Mismatch {
        op,
        lhs: spec_value_type(a),
        rhs: Some(spec_value_type(b)),
        hint: false,
    }
}

/// Addition. Numeric pairs add (an integer beside a float is widened, in
/// either operand order). Two lists with equal spread flags concatenate;
/// with differing flags the spread-marked side keeps the other whole list
/// as one new element. A list beside a non-list appends or prepends the
/// scalar. The resulting list never carries the spread flag. Everything
/// else is a mismatch naming both operand types.
pub open spec fn spec_add(a: ValueView, b: ValueView) -> OpSpecOutcome {
    match (a, b) {
        (ValueView::Int(x), ValueView::Int(y)) => OpSpecOutcome::Done(
            ValueView::Int((x + y) as i128),
        ),
        (ValueView::Float(x), ValueView::Float(y)) => OpSpecOutcome::FloatOp(
            OpKind::Add,
            FloatArg::Bits(x),
            FloatArg::Bits(y),
        ),
        (ValueView::Int(i), ValueView::Float(x)) => OpSpecOutcome::FloatOp(
            OpKind::Add,
            FloatArg::OfInt(i),
            FloatArg::Bits(x),
        ),
        (ValueView::Float(x), ValueView::Int(i)) => OpSpecOutcome::FloatOp(
            OpKind::Add,
            FloatArg::OfInt(i),
            FloatArg::Bits(x),
        ),
        (
            ValueView::List { items: l1, spread: s1 },
            ValueView::List { items: l2, spread: s2 },
        ) => {
            if s1 == s2 {
                OpSpecOutcome::Done(ValueView::List { items: l1 + l2, spread: false })
            } else if s1 {
                OpSpecOutcome::Done(
                    ValueView::List { items: l1.push(b), spread: false },
                )
            } else {
                OpSpecOutcome::Done(
                    ValueView::List { items: seq![a] + l2, spread: false },
                )
            }
        }
        (ValueView::List { items: l1, .. }, _) => OpSpecOutcome::Done(
            ValueView::List { items: l1.push(b), spread: false },
        ),
        (_, ValueView::List { items: l2, .. }) => OpSpecOutcome::Done(
            ValueView::List { items: seq![a] + l2, spread: false },
        ),
        _ => mismatch_of(OpKind::Add, a, b),
    }
}

pub open spec fn add_no_overflow(a: ValueView, b: ValueView) -> bool {
    a matches ValueView::Int(x) ==> b matches ValueView::Int(y) ==> i128::MIN <= x + y
        <= i128::MAX
}

pub fn add(a: Value, b: Value) -> (r: OpOutcome)
    requires
        add_no_overflow(a@, b@),
    ensures
        op_outcome_view(r) == spec_add(a@, b@),
{
    match (a, b) {
        (Value::Int(x), Value::Int(y)) => OpOutcome::Done(Value::Int(x + y)),
        (Value::Float(x), Value::Float(y)) => OpOutcome::FloatOp(
            OpKind::Add,
            FloatArg::Bits(x),
            FloatArg::Bits(y),
        ),
        (Value::Int(i), Value::Float(x)) => OpOutcome::FloatOp(
            OpKind::Add,
            FloatArg::OfInt(i),
            FloatArg::Bits(x),
        ),
        (Value::Float(x), Value::Int(i)) => OpOutcome::FloatOp(
            OpKind::Add,
            FloatArg::OfInt(i),
            FloatArg::Bits(x),
        ),
        (
            Value::List { items: l1, spread: s1 },
            Value::List { items: l2, spread: s2 },
        ) => {
            proof {
                lemma_views_of(l1@);
                lemma_views_of(l2@);
            }
            if s1 == s2 {
                let mut out = l1;
                append_values(&mut out, l2);
                OpOutcome::Done(Value::List { items: out, spread: false })
            } else if s1 {
                let ghost l1v = l1@;
                let mut out = l1;
                let newel = Value::List { items: l2, spread: s2 };
                let ghost nv = newel@;
                out.push(newel);
                proof {
                    lemma_views_of_push(l1v, Value::List { items: l2, spread: s2 });
                    assert(out@ == l1v.push(Value::List { items: l2, spread: s2 }));
                }
                OpOutcome::Done(Value::List { items: out, spread: false })
            } else {
                let ghost l1v = l1@;
                let newel = Value::List { items: l1, spread: s1 };
                let ghost nv = newel@;
                let mut out: Vec<Value> = vec![newel];
                proof {
                    lemma_views_of_push(Seq::<Value>::empty(), Value::List { items: l1, spread: s1 });
                    assert(out@ =~= Seq::<Value>::empty().push(Value::List { items: l1, spread: s1 }));
                    assert(views_of(Seq::<Value>::empty()) =~= Seq::<ValueView>::empty());
                    assert(views_of(out@) =~= seq![nv]);
                }
                append_values(&mut out, l2);
                OpOutcome::Done(Value::List { items: out, spread: false })
            }
        }
        (Value::List { items: l1, spread: _ }, y) => {
            let ghost l1v = l1@;
            let ghost yv = y;
            let mut out = l1;
            out.push(y);
            proof {
                lemma_views_of_push(l1v, yv);
                assert(out@ == l1v.push(yv));
            }
            OpOutcome::Done(Value::List { items: out, spread: false })
        }
        (x, Value::List { items: l2, spread: _ }) => {
            let ghost xv = x;
            let mut out: Vec<Value> = vec![x];
            proof {
                lemma_views_of_push(Seq::<Value>::empty(), xv);
                assert(out@ =~= Seq::<Value>::empty().push(xv));
                assert(views_of(Seq::<Value>::empty()) =~= Seq::<ValueView>::empty());
                assert(views_of(out@) =~= seq![view_of(xv)]);
            }
            append_values(&mut out, l2);
            OpOutcome::Done(Value::List { items: out, spread: false })
        }
        (x, y) => {
            let lt = x.value_type();
            let rt = y.value_type();
            OpOutcome::Mismatch(
                OpError {
                    op: OpKind::Add,
                    lhs_type: lt,
                    rhs_type: Some(rt),
                    hint_logical_not: false,
                },
            )
        }
    }
}

/// Appends, moving every element of `src` onto the end of `dst`.
pub(crate) fn append_values(dst: &mut Vec<Value>, src: Vec<Value>) -> (r: ())
    ensures
        final(dst)@ == old(dst)@ + src@,
        views_of(final(dst)@) == views_of(old(dst)@) + views_of(src@),
{
    let mut src = src;
    let ghost src0 = src@;
    let ghost dst0 = dst@;
    while src.len() > 0
        invariant
            dst@ + src@ == dst0 + src0,
        decreases src@.len(),
    {
        let x = src.remove(0);
        dst.push(x);
        proof {
            assert(dst@ + src@ =~= dst0 + src0);
        }
    }
    proof {
        assert(src@ =~= Seq::<Value>::empty());
        assert(dst@ =~= dst@ + src@);
        assert(dst@ =~= dst0 + src0);
        lemma_views_of_concat(dst0, src0);
    }
}

proof fn lemma_views_of_push(s: Seq<Value>, v: Value)
    ensures
        views_of(s.push(v)) == views_of(s).push(view_of(v)),
{
    lemma_views_of_concat(s, seq![v]);
    assert(s.push(v) =~= s + seq![v]);
    let single = seq![v];
    assert(single.len() == 1);
    assert(single[0] == v);
    assert(single.drop_first() =~= Seq::<Value>::empty());
    assert(views_of(single.drop_first()) =~= Seq::<ValueView>::empty());
    assert(views_of(single) == seq![view_of(v)] + views_of(single.drop_first()));
    assert(views_of(single) =~= seq![view_of(v)]);
    assert(views_of(s) + seq![view_of(v)] =~= views_of(s).push(view_of(v)));
}

/// Subtraction: numeric pairs only. With an integer beside a float, in
/// either order, the integer is widened and stands on the left of the
/// subtraction — also when the float was the left operand, the symmetric
/// operand-order retry the language's operators share.
pub open spec fn spec_sub(a: ValueView, b: ValueView) -> OpSpecOutcome {
    match (a, b) {
        (ValueView::Int(x), ValueView::Int(y)) => OpSpecOutcome::Done(
            ValueView::Int((x - y) as i128),
        ),
        (ValueView::Float(x), ValueView::Float(y)) => OpSpecOutcome::FloatOp(
            OpKind::Sub,
            FloatArg::Bits(x),
            FloatArg::Bits(y),
        ),
        (ValueView::Int(i), ValueView::Float(x)) => OpSpecOutcome::FloatOp(
            OpKind::Sub,
            FloatArg::OfInt(i),
            FloatArg::Bits(x),
        ),
        (ValueView::Float(x), ValueView::Int(i)) => OpSpecOutcome::FloatOp(
            OpKind::Sub,
            FloatArg::OfInt(i),
            FloatArg::Bits(x),
        ),
        _ => mismatch_of(OpKind::Sub, a, b),
    }
}

pub open spec fn sub_no_overflow(a: ValueView, b: ValueView) -> bool {
    a matches ValueView::Int(x) ==> b matches ValueView::Int(y) ==> i128::MIN <= x - y
        <= i128::MAX
}

pub fn sub(a: Value, b: Value) -> (r: OpOutcome)
    requires
        sub_no_overflow(a@, b@),
    ensures
        op_outcome_view(r) == spec_sub(a@, b@),
{
    match (a, b) {
        (Value::Int(x), Value::Int(y)) => OpOutcome::Done(Value::Int(x - y)),
        (Value::Float(x), Value::Float(y)) => OpOutcome::FloatOp(
            OpKind::Sub,
            FloatArg::Bits(x),
            FloatArg::Bits(y),
        ),
        (Value::Int(i), Value::Float(x)) => OpOutcome::FloatOp(
            OpKind::Sub,
            FloatArg::OfInt(i),
            FloatArg::Bits(x),
        ),
        (Value::Float(x), Value::Int(i)) => OpOutcome::FloatOp(
            OpKind::Sub,
            FloatArg::OfInt(i),
            FloatArg::Bits(x),
        ),
        (x, y) => {
            let lt = x.value_type();
            let rt = y.value_type();
            OpOutcome::Mismatch(
                OpError {
                    op: OpKind::Sub,
                    lhs_type: lt,
                    rhs_type: Some(rt),
                    hint_logical_not: false,
                },
            )
        }
    }
}

/// Truncating remainder of the machine integers: the remainder has the
/// magnitude of the operands' magnitudes' remainder and the sign of the
/// left operand.
pub open spec fn trunc_rem(x: int, y: int) -> int {
    let ma = (if x < 0 { -x } else { x }) % (if y < 0 { -y } else { y });
    if x < 0 { -ma } else { ma }
}

/// Remainder: numeric pairs only, truncating semantics; the widening
/// quirk of `spec_sub` applies the same way.
pub open spec fn spec_rem(a: ValueView, b: ValueView) -> OpSpecOutcome {
    match (a, b) {
        (ValueView::Int(x), ValueView::Int(y)) => OpSpecOutcome::Done(
            ValueView::Int(trunc_rem(x as int, y as int) as i128),
        ),
        (ValueView::Float(x), ValueView::Float(y)) => OpSpecOutcome::FloatOp(
            OpKind::Rem,
            FloatArg::Bits(x),
            FloatArg::Bits(y),
        ),
        (ValueView::Int(i), ValueView::Float(x)) => OpSpecOutcome::FloatOp(
            OpKind::Rem,
            FloatArg::OfInt(i),
            FloatArg::Bits(x),
        ),
        (ValueView::Float(x), ValueView::Int(i)) => OpSpecOutcome::FloatOp(
            OpKind::Rem,
            FloatArg::OfInt(i),
            FloatArg::Bits(x),
        ),
        _ => mismatch_of(OpKind::Rem, a, b),
    }
}

pub open spec fn rem_defined(a: ValueView, b: ValueView) -> bool {
    a matches ValueView::Int(x) ==> b matches ValueView::Int(y) ==> (y != 0 && !(x
        == i128::MIN && y == -1))
}

pub fn rem(a: Value, b: Value) -> (r: OpOutcome)
    requires
        rem_defined(a@, b@),
    ensures
        op_outcome_view(r) == spec_rem(a@, b@),
{
    match (a, b) {
        (Value::Int(x), Value::Int(y)) => {
            let xa: u128 = if x >= 0 {
                x as u128
            } else {
                (-(x + 1)) as u128 + 1
            };
            let ya: u128 = if y >= 0 {
                y as u128
            } else {
                (-(y + 1)) as u128 + 1
            };
            let ma = xa % ya;
            let m: i128 = if x < 0 {
                -(ma as i128)
            } else {
                ma as i128
            };
            proof {
                assert(m == trunc_rem(x as int, y as int));
            }
            OpOutcome::Done(Value::Int(m))
        }
        (Value::Float(x), Value::Float(y)) => OpOutcome::FloatOp(
            OpKind::Rem,
            FloatArg::Bits(x),
            FloatArg::Bits(y),
        ),
        (Value::Int(i), Value::Float(x)) => OpOutcome::FloatOp(
            OpKind::Rem,
            FloatArg::OfInt(i),
            FloatArg::Bits(x),
        ),
        (Value::Float(x), Value::Int(i)) => OpOutcome::FloatOp(
            OpKind::Rem,
            FloatArg::OfInt(i),
            FloatArg::Bits(x),
        ),
        (x, y) => {
            let lt = x.value_type();
            let rt = y.value_type();
            OpOutcome::Mismatch(
                OpError {
                    op: OpKind::Rem,
                    lhs_type: lt,
                    rhs_type: Some(rt),
                    hint_logical_not: false,
                },
            )
        }
    }
}

/// Unary negation: integers negate; floats flip the sign bit of their
/// pattern, the IEEE negation; negating a boolean is refused with the
/// hint to use logical not; everything else is a mismatch.
pub open spec fn spec_neg(v: ValueView) -> OpSpecOutcome {
    match v {
        ValueView::Int(i) => OpSpecOutcome::Done(ValueView::Int((-i) as i128)),
        ValueView::Float(x) => OpSpecOutcome::Done(
            ValueView::Float(x ^ 0x8000_0000_0000_0000),
        ),
        ValueView::Bool(_) => OpSpecOutcome::Mismatch {
            op: OpKind::Neg,
            lhs: spec_value_type(v),
            rhs: None,
            hint: true,
        },
        _ => OpSpecOutcome::Mismatch {
            op: OpKind::Neg,
            lhs: spec_value_type(v),
            rhs: None,
            hint: false,
        },
    }
}

pub fn neg(v: Value) -> (r: Result<Value, OpError>)
    requires
        !(v@ == ValueView::Int(i128::MIN)),
    ensures
        result_view(r) == spec_neg(v@),
{
    match v {
        Value::Int(i) => Ok(Value::Int(-i)),
        Value::Float(x) => Ok(Value::Float(x ^ 0x8000_0000_0000_0000)),
        other => {
            let hint = matches!(other, Value::Bool(_));
            let t = other.value_type();
            Err(OpError { op: OpKind::Neg, lhs_type: t, rhs_type: None, hint_logical_not: hint })
        }
    }
}

/// Logical not: booleans only.
pub open spec fn spec_not(v: ValueView) -> OpSpecOutcome {
    match v {
        ValueView::Bool(b) => OpSpecOutcome::Done(ValueView::Bool(!b)),
        _ => OpSpecOutcome::Mismatch {
            op: OpKind::Not,
            lhs: spec_value_type(v),
            rhs: None,
            hint: false,
        },
    }
}

pub fn not(v: Value) -> (r: Result<Value, OpError>)
    ensures
        result_view(r) == spec_not(v@),
{
    match v {
        Value::Bool(b) => Ok(Value::Bool(!b)),
        other => {
            let t = other.value_type();
            Err(
                OpError {
                    op: OpKind::Not,
                    lhs_type: t,
                    rhs_type: None,
                    hint_logical_not: false,
                },
            )
        }
    }
}

/// Logical conjunction and disjunction: both operands must be booleans;
/// otherwise the mismatch names both operand types.
pub open spec fn spec_and(a: ValueView, b: ValueView) -> OpSpecOutcome {
    match (a, b) {
        (ValueView::Bool(x), ValueView::Bool(y)) => OpSpecOutcome::Done(
            ValueView::Bool(x && y),
        ),
        _ => mismatch_of(OpKind::And, a, b),
    }
}

pub open spec fn spec_or(a: ValueView, b: ValueView) -> OpSpecOutcome {
    match (a, b) {
        (ValueView::Bool(x), ValueView::Bool(y)) => OpSpecOutcome::Done(
            ValueView::Bool(x || y),
        ),
        _ => mismatch_of(OpKind::Or, a, b),
    }
}

impl Value {
    pub fn and(&self, rhs: &Value) -> (r: Result<Value, OpError>)
        ensures
            result_view(r) == spec_and(self@, rhs@),
    {
        match (self, rhs) {
            (Value::Bool(x), Value::Bool(y)) => Ok(Value::Bool(*x && *y)),
            _ => {
                let lt = self.value_type();
                let rt = rhs.value_type();
                Err(
                    OpError {
                        op: OpKind::And,
                        lhs_type: lt,
                        rhs_type: Some(rt),
                        hint_logical_not: false,
                    },
                )
            }
        }
    }

    pub fn or(&self, rhs: &Value) -> (r: Result<Value, OpError>)
        ensures
            result_view(r) == spec_or(self@, rhs@),
    {
        match (self, rhs) {
            (Value::Bool(x), Value::Bool(y)) => Ok(Value::Bool(*x || *y)),
            _ => {
                let lt = self.value_type();
                let rt = rhs.value_type();
                Err(
                    OpError {
                        op: OpKind::Or,
                        lhs_type: lt,
                        rhs_type: Some(rt),
                        hint_logical_not: false,
                    },
                )
            }
        }
    }

    /// Builds a plain list value from its elements.
    pub fn list(vec: Vec<Value>) -> (r: Value)
        ensures
            r@ == (ValueView::List { items: views_of(vec@), spread: false }),
    {
        Value::List { items: vec, spread: false }
    }
}

#[derive(Clone, Copy, PartialEq, Eq, Structural)]
pub enum ValueOrder {
    Less,
    Equal,
    Greater,
}

/// What a comparison evaluates to: an ordering (or none — values outside
/// the numeric pairs are simply unordered), or a float comparison for the
/// host, whose IEEE ordering of the two operands is the result.
#[derive(Clone, Copy, PartialEq, Eq, Structural)]
pub enum CmpOutcome {
    Done(Option<ValueOrder>),
    FloatCmp(FloatArg, FloatArg),
}

/// Partial ordering: integer pairs order as integers; any pair involving
/// a float defers to the host, with an integer operand widened; in the
/// mixed pairs the widened integer always stands on the left — also when
/// the float was the left operand, the symmetric operand-order retry the
/// language's operators share. All other pairs have no ordering.
pub open spec fn spec_partial_cmp(a: ValueView, b: ValueView) -> CmpOutcome {
    match (a, b) {
        (ValueView::Int(x), ValueView::Int(y)) => CmpOutcome::Done(
            Some(
                if x < y {
                    ValueOrder::Less
                } else if x == y {
                    ValueOrder::Equal
                } else {
                    ValueOrder::Greater
                },
            ),
        ),
        (ValueView::Float(x), ValueView::Float(y)) => CmpOutcome::FloatCmp(
            FloatArg::Bits(x),
            FloatArg::Bits(y),
        ),
        (ValueView::Int(i), ValueView::Float(x)) => CmpOutcome::FloatCmp(
            FloatArg::OfInt(i),
            FloatArg::Bits(x),
        ),
        (ValueView::Float(x), ValueView::Int(i)) => CmpOutcome::FloatCmp(
            FloatArg::OfInt(i),
            FloatArg::Bits(x),
        ),
        _ => CmpOutcome::Done(None),
    }
}

pub fn partial_cmp(a: &Value, b: &Value) -> (r: CmpOutcome)
    ensures
        r == spec_partial_cmp(a@, b@),
{
    match (a, b) {
        (Value::Int(x), Value::Int(y)) => CmpOutcome::Done(
            Some(
                if *x < *y {
                    ValueOrder::Less
                } else if *x == *y {
                    ValueOrder::Equal
                } else {
                    ValueOrder::Greater
                },
            ),
        ),
        (Value::Float(x), Value::Float(y)) => CmpOutcome::FloatCmp(
            FloatArg::Bits(*x),
            FloatArg::Bits(*y),
        ),
        (Value::Int(i), Value::Float(x)) => CmpOutcome::FloatCmp(
            FloatArg::OfInt(*i),
            FloatArg::Bits(*x),
        ),
        (Value::Float(x), Value::Int(i)) => CmpOutcome::FloatCmp(
            FloatArg::OfInt(*i),
            FloatArg::Bits(*x),
        ),
        _ => CmpOutcome::Done(None),
    }
}

} // verus!
